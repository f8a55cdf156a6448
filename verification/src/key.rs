//! Cache keys: a stable identifier derived from a source path and a requested
//! size. Nothing of the file's contents enters the key.

use vstd::prelude::*;
use vstd::string::StringExecFns;
use vstd::utf8::encode_utf8;

verus! {

/// Where the 64-bit FNV-1a hash starts.
pub const FNV_OFFSET_BASIS: u64 = 0xcbf29ce484222325;

/// What the 64-bit FNV-1a hash multiplies by after each byte.
pub const FNV_PRIME: u64 = 0x100000001b3;

/// Hex digits in the hash part of a key.
pub const HASH_DIGITS: u32 = 16;

/// Hex digits in the size part of a key.
pub const SIZE_DIGITS: u32 = 8;

/// One round of FNV-1a: mix the byte in, then multiply, modulo 2^64.
pub open spec fn fnv_step(hash: u64, byte: u8) -> u64 {
    (hash ^ (byte as u64)).wrapping_mul(FNV_PRIME)
}

/// The 64-bit FNV-1a hash of `bytes`.
pub open spec fn fnv1a(bytes: Seq<u8>) -> u64
    decreases bytes.len(),
{
    if bytes.len() == 0 {
        FNV_OFFSET_BASIS
    } else {
        fnv_step(fnv1a(bytes.drop_last()), bytes.last())
    }
}

/// The lower-case hex digit for a value below sixteen.
pub open spec fn hex_char(nibble: int) -> char {
    if nibble < 10 {
        (0x30 + nibble) as char
    } else {
        (0x61 + nibble - 10) as char
    }
}

/// The last `width` hex digits of `value`, most significant first.
pub open spec fn hex_digits(value: nat, width: nat) -> Seq<char>
    decreases width,
{
    if width == 0 {
        Seq::empty()
    } else {
        hex_digits(value / 16, (width - 1) as nat).push(hex_char((value % 16) as int))
    }
}

/// Sixteen to the power `width`.
pub open spec fn pow16(width: nat) -> nat
    decreases width,
{
    if width == 0 {
        1
    } else {
        16 * pow16((width - 1) as nat)
    }
}

/// The key under which the thumbnail of `path` at `size` is stored: the hash
/// of the path's UTF-8 bytes in sixteen hex digits, then the size in eight.
pub open spec fn cache_key(path: Seq<char>, size: u32) -> Seq<char> {
    hex_digits(fnv1a(encode_utf8(path)) as nat, HASH_DIGITS as nat) + hex_digits(
        size as nat,
        SIZE_DIGITS as nat,
    )
}

/// The fingerprint of a file's contents: their hash in sixteen hex digits.
pub open spec fn content_hash(data: Seq<u8>) -> Seq<char> {
    hex_digits(fnv1a(data) as nat, HASH_DIGITS as nat)
}

/// `hex_digits` yields exactly `width` digits.
pub proof fn lemma_hex_digits_len(value: nat, width: nat)
    ensures
        hex_digits(value, width).len() == width,
    decreases width,
{
    if width > 0 {
        lemma_hex_digits_len(value / 16, (width - 1) as nat);
    }
}

/// Two values that fit in `width` digits and are written alike are equal.
pub proof fn lemma_hex_digits_injective(a: nat, b: nat, width: nat)
    requires
        a < pow16(width),
        b < pow16(width),
        hex_digits(a, width) == hex_digits(b, width),
    ensures
        a == b,
    decreases width,
{
    if width > 0 {
        let shorter = (width - 1) as nat;
        let da = hex_digits(a / 16, shorter);
        let db = hex_digits(b / 16, shorter);
        let ca = hex_char((a % 16) as int);
        let cb = hex_char((b % 16) as int);
        lemma_hex_digits_len(a / 16, shorter);
        lemma_hex_digits_len(b / 16, shorter);
        assert(da.push(ca) == db.push(cb));
        assert(da.push(ca).last() == ca);
        assert(db.push(cb).last() == cb);
        assert(da.push(ca).drop_last() == da);
        assert(db.push(cb).drop_last() == db);
        assert(a % 16 == b % 16);
        lemma_hex_digits_injective(a / 16, b / 16, shorter);
    }
}

/// Key separation. Two keys are the same only if they were derived for the
/// same size and from paths with the same hash: one path requested at two
/// sizes never shares a key.
pub proof fn lemma_key_separation(path_a: Seq<char>, size_a: u32, path_b: Seq<char>, size_b: u32)
    requires
        cache_key(path_a, size_a) == cache_key(path_b, size_b),
    ensures
        size_a == size_b,
        fnv1a(encode_utf8(path_a)) == fnv1a(encode_utf8(path_b)),
{
    let ha = fnv1a(encode_utf8(path_a)) as nat;
    let hb = fnv1a(encode_utf8(path_b)) as nat;
    let ka = cache_key(path_a, size_a);
    let kb = cache_key(path_b, size_b);
    lemma_hex_digits_len(ha, 16);
    lemma_hex_digits_len(hb, 16);
    lemma_hex_digits_len(size_a as nat, 8);
    lemma_hex_digits_len(size_b as nat, 8);
    assert(ka.subrange(0, 16) == hex_digits(ha, 16));
    assert(kb.subrange(0, 16) == hex_digits(hb, 16));
    assert(ka.subrange(16, 24) == hex_digits(size_a as nat, 8));
    assert(kb.subrange(16, 24) == hex_digits(size_b as nat, 8));
    assert(pow16(8) == 0x1_0000_0000) by {
        reveal_with_fuel(pow16, 9);
    }
    assert(pow16(16) == 0x1_0000_0000_0000_0000) by {
        reveal_with_fuel(pow16, 17);
    }
    lemma_hex_digits_injective(size_a as nat, size_b as nat, 8);
    lemma_hex_digits_injective(ha, hb, 16);
}

/// The 64-bit FNV-1a hash of `bytes`.
pub fn hash_bytes(bytes: &[u8]) -> (hash: u64)
    ensures
        hash == fnv1a(bytes@),
{
    let mut hash: u64 = FNV_OFFSET_BASIS;
    let mut i: usize = 0;
    while i < bytes.len()
        invariant
            i <= bytes.len(),
            hash == fnv1a(bytes@.take(i as int)),
        decreases bytes.len() - i,
    {
        assert(bytes@.take(i + 1).drop_last() == bytes@.take(i as int));
        assert(bytes@.take(i + 1).last() == bytes@[i as int]);
        hash = (hash ^ (bytes[i] as u64)).wrapping_mul(FNV_PRIME);
        i += 1;
    }
    assert(bytes@.take(i as int) == bytes@);
    hash
}

/// The one-letter string for a hex digit.
fn hex_digit(nibble: u64) -> (digit: &'static str)
    requires
        nibble < 16,
    ensures
        digit@ == seq![hex_char(nibble as int)],
{
    proof {
        reveal_strlit("0");
        reveal_strlit("1");
        reveal_strlit("2");
        reveal_strlit("3");
        reveal_strlit("4");
        reveal_strlit("5");
        reveal_strlit("6");
        reveal_strlit("7");
        reveal_strlit("8");
        reveal_strlit("9");
        reveal_strlit("a");
        reveal_strlit("b");
        reveal_strlit("c");
        reveal_strlit("d");
        reveal_strlit("e");
        reveal_strlit("f");
    }
    let digit = if nibble == 0 {
        "0"
    } else if nibble == 1 {
        "1"
    } else if nibble == 2 {
        "2"
    } else if nibble == 3 {
        "3"
    } else if nibble == 4 {
        "4"
    } else if nibble == 5 {
        "5"
    } else if nibble == 6 {
        "6"
    } else if nibble == 7 {
        "7"
    } else if nibble == 8 {
        "8"
    } else if nibble == 9 {
        "9"
    } else if nibble == 10 {
        "a"
    } else if nibble == 11 {
        "b"
    } else if nibble == 12 {
        "c"
    } else if nibble == 13 {
        "d"
    } else if nibble == 14 {
        "e"
    } else {
        "f"
    };
    assert(digit@ =~= seq![hex_char(nibble as int)]);
    digit
}

/// Appends the last `width` hex digits of `value` to `out`.
fn append_hex(out: &mut String, value: u64, width: u32)
    ensures
        final(out)@ == old(out)@ + hex_digits(value as nat, width as nat),
    decreases width,
{
    if width > 0 {
        append_hex(out, value / 16, width - 1);
        out.append(hex_digit(value % 16));
        assert(out@ =~= old(out)@ + hex_digits(value as nat, width as nat));
    } else {
        assert(out@ =~= old(out)@ + hex_digits(value as nat, width as nat));
    }
}

/// Derives the key for the thumbnail of `path` at `size`. The key depends on
/// nothing but these two values, so it is the same on every call, in every
/// process and on every machine.
pub fn get_cache_key(path: &str, size: u32) -> (key: String)
    ensures
        key@ == cache_key(path@, size),
{
    let hash = hash_bytes(path.as_bytes());
    let mut key = String::new();
    append_hex(&mut key, hash, HASH_DIGITS);
    append_hex(&mut key, size as u64, SIZE_DIGITS);
    assert(key@ =~= cache_key(path@, size));
    key
}

/// The fingerprint of a file's contents, for telling an edited file from the
/// one that was cached.
pub fn generate_file_hash(data: &[u8]) -> (hash: String)
    ensures
        hash@ == content_hash(data@),
{
    let mut hash = String::new();
    append_hex(&mut hash, hash_bytes(data), HASH_DIGITS);
    assert(hash@ =~= content_hash(data@));
    hash
}

} // verus!
