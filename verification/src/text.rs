//! Rendering of integers as text (decimal and hexadecimal), shared by the
//! error messages, key builders and metric exporters of the library.
use vstd::prelude::*;

verus! {

/// The character that stands for digit `d` (0..16) in lowercase hexadecimal.
pub open spec fn hex_digit_char(d: nat) -> char {
    if d == 0 { '0' }
    else if d == 1 { '1' }
    else if d == 2 { '2' }
    else if d == 3 { '3' }
    else if d == 4 { '4' }
    else if d == 5 { '5' }
    else if d == 6 { '6' }
    else if d == 7 { '7' }
    else if d == 8 { '8' }
    else if d == 9 { '9' }
    else if d == 10 { 'a' }
    else if d == 11 { 'b' }
    else if d == 12 { 'c' }
    else if d == 13 { 'd' }
    else if d == 14 { 'e' }
    else { 'f' }
}

/// Decimal rendering of `n`, without leading zeros ("0" for zero).
pub open spec fn decimal(n: nat) -> Seq<char>
    decreases n,
{
    if n < 10 {
        seq![hex_digit_char(n)]
    } else {
        decimal(n / 10).push(hex_digit_char(n % 10))
    }
}

/// Lowercase hexadecimal rendering of `n`, without leading zeros ("0" for zero).
pub open spec fn hex_min(n: nat) -> Seq<char>
    decreases n,
{
    if n < 16 {
        seq![hex_digit_char(n)]
    } else {
        hex_min(n / 16).push(hex_digit_char(n % 16))
    }
}

/// Two lowercase hexadecimal digits of a byte (`{:02x}`).
pub open spec fn hex_byte(b: u8) -> Seq<char> {
    seq![hex_digit_char(b as nat / 16), hex_digit_char(b as nat % 16)]
}

/// Two-digit lowercase hexadecimal rendering of every byte, concatenated.
pub open spec fn hex_bytes(bytes: Seq<u8>) -> Seq<char>
    decreases bytes.len(),
{
    if bytes.len() == 0 {
        Seq::empty()
    } else {
        hex_bytes(bytes.drop_last()) + hex_byte(bytes.last())
    }
}

/// A one-character string literal for the hexadecimal digit `d`.
pub fn digit_str(d: u8) -> (s: &'static str)
    requires
        d < 16,
    ensures
        s@ == seq![hex_digit_char(d as nat)],
{
    if d == 0 {
        proof { reveal_strlit("0"); }
        "0"
    } else if d == 1 {
        proof { reveal_strlit("1"); }
        "1"
    } else if d == 2 {
        proof { reveal_strlit("2"); }
        "2"
    } else if d == 3 {
        proof { reveal_strlit("3"); }
        "3"
    } else if d == 4 {
        proof { reveal_strlit("4"); }
        "4"
    } else if d == 5 {
        proof { reveal_strlit("5"); }
        "5"
    } else if d == 6 {
        proof { reveal_strlit("6"); }
        "6"
    } else if d == 7 {
        proof { reveal_strlit("7"); }
        "7"
    } else if d == 8 {
        proof { reveal_strlit("8"); }
        "8"
    } else if d == 9 {
        proof { reveal_strlit("9"); }
        "9"
    } else if d == 10 {
        proof { reveal_strlit("a"); }
        "a"
    } else if d == 11 {
        proof { reveal_strlit("b"); }
        "b"
    } else if d == 12 {
        proof { reveal_strlit("c"); }
        "c"
    } else if d == 13 {
        proof { reveal_strlit("d"); }
        "d"
    } else if d == 14 {
        proof { reveal_strlit("e"); }
        "e"
    } else {
        proof { reveal_strlit("f"); }
        "f"
    }
}

/// Append the decimal rendering of `n` to `out`.
pub fn push_decimal(out: &mut String, n: u64)
    ensures
        final(out)@ == old(out)@ + decimal(n as nat),
    decreases n,
{
    if n >= 10 {
        push_decimal(out, n / 10);
    }
    let d = (n % 10) as u8;
    out.append(digit_str(d));
    proof {
        assert(decimal(n as nat) == if n < 10 {
            seq![hex_digit_char(n as nat)]
        } else {
            decimal((n / 10) as nat).push(hex_digit_char((n % 10) as nat))
        });
        if n < 10 {
            assert(n % 10 == n);
        }
    }
    assert(final(out)@ =~= old(out)@ + decimal(n as nat)) by {
        if n >= 10 {
            assert(old(out)@ + decimal((n / 10) as nat) + seq![hex_digit_char((n % 10) as nat)]
                =~= old(out)@ + decimal((n / 10) as nat).push(hex_digit_char((n % 10) as nat)));
        }
    }
}

/// Append the lowercase hexadecimal rendering of `n`, without leading zeros.
pub fn push_hex_min(out: &mut String, n: u64)
    ensures
        final(out)@ == old(out)@ + hex_min(n as nat),
    decreases n,
{
    if n >= 16 {
        push_hex_min(out, n / 16);
    }
    let d = (n % 16) as u8;
    out.append(digit_str(d));
    proof {
        if n < 16 {
            assert(n % 16 == n);
        }
    }
    assert(final(out)@ =~= old(out)@ + hex_min(n as nat)) by {
        if n >= 16 {
            assert(old(out)@ + hex_min((n / 16) as nat) + seq![hex_digit_char((n % 16) as nat)]
                =~= old(out)@ + hex_min((n / 16) as nat).push(hex_digit_char((n % 16) as nat)));
        }
    }
}

/// The decimal rendering of `n` as a new string.
pub fn decimal_string(n: u64) -> (s: String)
    ensures
        s@ == decimal(n as nat),
{
    let mut s = String::new();
    push_decimal(&mut s, n);
    assert(s@ =~= decimal(n as nat));
    s
}

/// Append two lowercase hexadecimal digits for the byte `b`.
pub fn push_hex_byte(out: &mut String, b: u8)
    ensures
        final(out)@ == old(out)@ + hex_byte(b),
{
    out.append(digit_str(b / 16));
    out.append(digit_str(b % 16));
    assert(final(out)@ =~= old(out)@ + hex_byte(b));
}

/// The characters of `s`, in order.
pub fn str_chars(s: &str) -> (v: Vec<char>)
    ensures
        v@ == s@,
{
    let n = s.unicode_len();
    let mut v: Vec<char> = Vec::with_capacity(n);
    let mut i: usize = 0;
    while i < n
        invariant
            n == s@.len(),
            i <= n,
            v@ == s@.subrange(0, i as int),
        decreases n - i,
    {
        v.push(s.get_char(i));
        i += 1;
        assert(v@ =~= s@.subrange(0, i as int));
    }
    assert(s@.subrange(0, n as int) =~= s@);
    v
}

/// Whether `v[from..to]` holds exactly the characters of `lit`.
pub fn chars_match(v: &Vec<char>, from: usize, to: usize, lit: &str) -> (r: bool)
    requires
        from <= to <= v@.len(),
    ensures
        r == (v@.subrange(from as int, to as int) == lit@),
{
    let w = str_chars(lit);
    if to - from != w.len() {
        assert(v@.subrange(from as int, to as int).len() != lit@.len());
        return false;
    }
    let mut i: usize = 0;
    while i < w.len()
        invariant
            from <= to <= v@.len(),
            to - from == w@.len(),
            w@ == lit@,
            i <= w@.len(),
            forall|k: int| 0 <= k < i ==> v@[from + k] == w@[k],
        decreases w@.len() - i,
    {
        if v[from + i] != w[i] {
            assert(v@.subrange(from as int, to as int)[i as int] != lit@[i as int]);
            return false;
        }
        i += 1;
    }
    assert(v@.subrange(from as int, to as int) =~= lit@);
    true
}

/// Whether two strings hold the same characters.
pub fn str_equal(a: &str, b: &str) -> (r: bool)
    ensures
        r == (a@ == b@),
{
    let v = str_chars(a);
    let r = chars_match(&v, 0, v.len(), b);
    assert(v@.subrange(0, v@.len() as int) =~= a@);
    r
}

/// Append the two-digit lowercase hexadecimal rendering of every byte.
pub fn push_hex_bytes(out: &mut String, bytes: &[u8])
    ensures
        final(out)@ == old(out)@ + hex_bytes(bytes@),
{
    let n = bytes.len();
    let mut i: usize = 0;
    while i < n
        invariant
            n == bytes@.len(),
            i <= n,
            out@ == old(out)@ + hex_bytes(bytes@.subrange(0, i as int)),
        decreases n - i,
    {
        push_hex_byte(out, bytes[i]);
        proof {
            let pre = bytes@.subrange(0, i as int);
            let next = bytes@.subrange(0, i + 1);
            assert(next.drop_last() =~= pre);
            assert(next.last() == bytes@[i as int]);
        }
        i += 1;
    }
    assert(bytes@.subrange(0, n as int) =~= bytes@);
}

/// Two hexadecimal digits per byte.
pub proof fn lemma_hex_bytes_len(bytes: Seq<u8>)
    ensures
        hex_bytes(bytes).len() == 2 * bytes.len(),
    decreases bytes.len(),
{
    if bytes.len() > 0 {
        lemma_hex_bytes_len(bytes.drop_last());
    }
}

/// The characters of `hex_bytes`: two per byte, high digit first.
pub proof fn lemma_hex_bytes_index(bytes: Seq<u8>, j: int)
    requires
        0 <= j < bytes.len(),
    ensures
        hex_bytes(bytes).len() == 2 * bytes.len(),
        hex_bytes(bytes)[2 * j] == hex_digit_char(bytes[j] as nat / 16),
        hex_bytes(bytes)[2 * j + 1] == hex_digit_char(bytes[j] as nat % 16),
    decreases bytes.len(),
{
    lemma_hex_bytes_len(bytes);
    lemma_hex_bytes_len(bytes.drop_last());
    if j < bytes.len() - 1 {
        lemma_hex_bytes_index(bytes.drop_last(), j);
    }
}

} // verus!
