//! Custody of signing keys — the encoding side. Keys are held as hex text (two lower-case hex
//! digits per byte) under `keys/author-N[.master].key` in the file vault; this module owns the
//! encoding, the decoding and the naming. Reading and writing the files, and the choice of
//! vault, happen in the application.

use vstd::prelude::*;

use crate::error::StudioError;
use crate::registry_store::seed_from_bytes;
use crate::text::{chars_of, decimal, decimal_string, is_space, same_text, is_trim_of, lemma_trim_unique, push_char, string_of, trim_text};
use crate::workspace::{join, join_path, Workspace};

verus! {

/// The lower-case hex digit for `n` (`0 <= n < 16`).
pub open spec fn hex_digit(n: int) -> char {
    if n < 10 {
        (('0' as int) + n) as char
    } else {
        (('a' as int) + n - 10) as char
    }
}

/// The value of a hex digit (either case), if `c` is one.
pub open spec fn hex_value(c: char) -> Option<int> {
    if '0' <= c && c <= '9' {
        Some(c as int - '0' as int)
    } else if 'a' <= c && c <= 'f' {
        Some(c as int - 'a' as int + 10)
    } else if 'A' <= c && c <= 'F' {
        Some(c as int - 'A' as int + 10)
    } else {
        None
    }
}

/// The hex encoding of `bytes`: the high then the low nibble of each byte.
pub open spec fn hex_of(bytes: Seq<u8>) -> Seq<char> {
    Seq::new(
        2 * bytes.len(),
        |k: int|
            if k % 2 == 0 {
                hex_digit(bytes[k / 2] as int / 16)
            } else {
                hex_digit(bytes[k / 2] as int % 16)
            },
    )
}

/// Whether `s` is a hex encoding: an even number of hex digits.
pub open spec fn is_hex(s: Seq<char>) -> bool {
    &&& s.len() % 2 == 0
    &&& forall|k: int| 0 <= k < s.len() ==> (#[trigger] hex_value(s[k])) is Some
}

/// The bytes a hex encoding stands for.
pub open spec fn bytes_of_hex(s: Seq<char>) -> Seq<u8> {
    Seq::new(
        s.len() / 2,
        |k: int| (hex_value(s[2 * k]).unwrap() * 16 + hex_value(s[2 * k + 1]).unwrap()) as u8,
    )
}

fn hex_digit_exec(n: u8) -> (c: char)
    requires
        n < 16,
    ensures
        c == hex_digit(n as int),
{
    if n < 10 {
        ((48u8 + n) as char)
    } else {
        ((87u8 + n) as char)
    }
}

/// Lower-case hex encoding of `bytes`.
pub fn hex_encode(bytes: &[u8]) -> (s: String)
    ensures
        s@ == hex_of(bytes@),
{
    let mut s = String::new();
    let mut i: usize = 0;
    while i < bytes.len()
        invariant
            i <= bytes.len(),
            s@ =~= hex_of(bytes@.take(i as int)),
        decreases bytes.len() - i,
    {
        let b = bytes[i];
        assert((b >> 4) == b / 16 && (b & 0xf) == b % 16) by (bit_vector);
        push_char(&mut s, hex_digit_exec(b >> 4));
        push_char(&mut s, hex_digit_exec(b & 0xf));
        assert(hex_of(bytes@.take(i + 1)) =~= hex_of(bytes@.take(i as int)).push(
            hex_digit(b as int / 16),
        ).push(hex_digit(b as int % 16)));
        i = i + 1;
    }
    assert(bytes@.take(bytes@.len() as int) =~= bytes@);
    s
}

fn hex_value_exec(c: char) -> (v: Option<u8>)
    ensures
        v matches Some(x) ==> hex_value(c) == Some(x as int),
        v is None ==> hex_value(c) is None,
{
    if '0' <= c && c <= '9' {
        Some(((c as u32) - 48) as u8)
    } else if 'a' <= c && c <= 'f' {
        Some(((c as u32) - 87) as u8)
    } else if 'A' <= c && c <= 'F' {
        Some(((c as u32) - 55) as u8)
    } else {
        None
    }
}

/// Decode hex text (digits of either case). `None` for an odd length or a non-hex character.
pub fn hex_decode(s: &str) -> (r: Option<Vec<u8>>)
    ensures
        is_hex(s@) ==> (r matches Some(v) && v@ == bytes_of_hex(s@)),
        !is_hex(s@) ==> r is None,
        r matches Some(v) ==> v@.len() == s@.len() / 2 && hex_of(v@) == ascii_lower_text(s@),
{
    proof {
        if is_hex(s@) {
            lemma_hex_decode_encode(s@);
        }
    }
    let cs = chars_of(s);
    if cs.len() % 2 != 0 {
        return None;
    }
    let mut out: Vec<u8> = Vec::new();
    let mut i: usize = 0;
    while i < cs.len()
        invariant
            cs@ == s@,
            cs.len() % 2 == 0,
            i % 2 == 0,
            i <= cs.len(),
            out@.len() == i / 2,
            forall|k: int| 0 <= k < i ==> (#[trigger] hex_value(cs@[k])) is Some,
            forall|k: int| 0 <= k < i / 2 ==> #[trigger] out@[k] == bytes_of_hex(s@)[k],
        decreases cs.len() - i,
    {
        let hi = match hex_value_exec(cs[i]) {
            Some(v) => v,
            None => return None,
        };
        let lo = match hex_value_exec(cs[i + 1]) {
            Some(v) => v,
            None => return None,
        };
        out.push(hi * 16 + lo);
        assert(2 * (i as int / 2) == i);
        i = i + 2;
    }
    assert(out@ =~= bytes_of_hex(s@));
    Some(out)
}

/// Decoding the hex encoding of any bytes gives those bytes back.
pub proof fn lemma_hex_round_trip(bytes: Seq<u8>)
    ensures
        is_hex(hex_of(bytes)),
        bytes_of_hex(hex_of(bytes)) == bytes,
{
    let h = hex_of(bytes);
    assert forall|k: int| 0 <= k < h.len() implies (#[trigger] hex_value(h[k])) is Some by {
        let b = bytes[k / 2] as int;
        assert(0 <= b / 16 < 16 && 0 <= b % 16 < 16);
    }
    assert forall|k: int| 0 <= k < bytes.len() implies #[trigger] bytes_of_hex(h)[k] == bytes[k] by {
        let b = bytes[k] as int;
        assert((2 * k) / 2 == k && (2 * k + 1) / 2 == k && (2 * k) % 2 == 0 && (2 * k + 1) % 2 == 1);
        assert(hex_value(hex_digit(b / 16)) == Some(b / 16));
        assert(hex_value(hex_digit(b % 16)) == Some(b % 16));
    }
    assert(bytes_of_hex(h) =~= bytes);
}

/// A character in ASCII lower case (what `char::to_ascii_lowercase` gives).
pub open spec fn ascii_lower(c: char) -> char {
    if 'A' <= c && c <= 'Z' {
        ((c as int) + 32) as char
    } else {
        c
    }
}

/// Text in ASCII lower case.
pub open spec fn ascii_lower_text(s: Seq<char>) -> Seq<char> {
    Seq::new(s.len(), |k: int| ascii_lower(s[k]))
}

proof fn lemma_nibbles(hi: int, lo: int)
    requires
        0 <= hi < 16,
        0 <= lo < 16,
    ensures
        0 <= hi * 16 + lo < 256,
        (hi * 16 + lo) / 16 == hi,
        (hi * 16 + lo) % 16 == lo,
{
    assert(0 <= hi * 16 + lo < 256) by (nonlinear_arith)
        requires
            0 <= hi < 16,
            0 <= lo < 16,
    ;
    assert((hi * 16 + lo) / 16 == hi && (hi * 16 + lo) % 16 == lo) by (nonlinear_arith)
        requires
            0 <= hi < 16,
            0 <= lo < 16,
    ;
}

/// Decoding hex text gives half as many bytes as the text has digits, and encoding them again
/// gives the text back in lower case.
pub proof fn lemma_hex_decode_encode(s: Seq<char>)
    requires
        is_hex(s),
    ensures
        bytes_of_hex(s).len() == s.len() / 2,
        hex_of(bytes_of_hex(s)) == ascii_lower_text(s),
{
    let b = bytes_of_hex(s);
    let h = hex_of(b);
    assert forall|k: int| 0 <= k < s.len() implies #[trigger] h[k] == ascii_lower(s[k]) by {
        let j = k / 2;
        assert(0 <= 2 * j && 2 * j + 1 < s.len());
        assert(hex_value(s[2 * j]) is Some);
        assert(hex_value(s[2 * j + 1]) is Some);
        let hi = hex_value(s[2 * j]).unwrap();
        let lo = hex_value(s[2 * j + 1]).unwrap();
        lemma_nibbles(hi, lo);
        assert(b[j] as int == hi * 16 + lo);
        if k % 2 == 0 {
            assert(k == 2 * j);
            assert(hex_digit(hi) == ascii_lower(s[k]));
        } else {
            assert(k == 2 * j + 1);
            assert(hex_digit(lo) == ascii_lower(s[k]));
        }
    }
    assert(h =~= ascii_lower_text(s));
}

/// The fixed-width hex rendering of `x`: its low `n` nibbles, most significant first.
pub open spec fn hex_width(x: nat, n: nat) -> Seq<char>
    decreases n,
{
    if n == 0 {
        seq![]
    } else {
        hex_width(x / 16, (n - 1) as nat).push(hex_digit((x % 16) as int))
    }
}

/// `x` as 16 lower-case hex digits, zero-padded (`{:016x}`).
pub fn hex_u64(x: u64) -> (s: String)
    ensures
        s@ == hex_width(x as nat, 16),
{
    let mut digits: Vec<char> = Vec::new();
    let mut m: u64 = x;
    let mut k: usize = 0;
    let ghost mut tail: Seq<char> = seq![];
    while k < 16
        invariant
            k <= 16,
            hex_width(x as nat, 16) == hex_width(m as nat, (16 - k) as nat) + tail,
            tail == digits@.reverse(),
            digits.len() == k,
        decreases 16 - k,
    {
        let c = hex_digit_exec((m % 16) as u8);
        digits.push(c);
        proof {
            let old_tail = tail;
            tail = seq![c] + old_tail;
            assert(digits@.reverse() =~= seq![c] + old_tail);
            assert(hex_width(m as nat, (16 - k) as nat) + old_tail =~= hex_width(
                (m / 16) as nat,
                (16 - k - 1) as nat,
            ) + tail);
        }
        m = m / 16;
        k = k + 1;
    }
    assert(hex_width(m as nat, 0) + tail =~= tail);
    let mut s = String::new();
    let mut j: usize = 16;
    while j > 0
        invariant
            j <= 16,
            digits.len() == 16,
            s@ == digits@.reverse().take((16 - j) as int),
        decreases j,
    {
        j = j - 1;
        push_char(&mut s, digits[j]);
        assert(digits@.reverse().take((16 - j) as int) =~= digits@.reverse().take(
            (16 - j - 1) as int,
        ).push(digits@[j as int]));
    }
    assert(digits@.reverse().take(16) =~= digits@.reverse());
    s
}

// ---------------------------------------------------------------------------------------------
// Key files.
// ---------------------------------------------------------------------------------------------

/// The OS keyring service the keys are filed under.
pub const KEYRING_SERVICE: &'static str = "aion-context-studio";

/// The keyring account of an author's key: `author-<N><kind>`.
pub open spec fn account_name(author: u64, kind: Seq<char>) -> Seq<char> {
    "author-"@ + decimal(author as nat) + kind
}

/// The keyring account of an author's key.
pub fn keyring_account(author: u64, kind: &str) -> (s: String)
    ensures
        s@ == account_name(author, kind@),
{
    String::from_str("author-").concat(decimal_string(author).as_str()).concat(kind)
}

/// Whether the custody setting (`STUDIO_CUSTODY`) selects the OS keyring; anything else, or no
/// setting, keeps the file vault.
pub fn uses_keyring(setting: Option<&str>) -> (b: bool)
    ensures
        b == (setting matches Some(s) && s@ == "keyring"@),
{
    match setting {
        Some(s) => same_text(s, "keyring"),
        None => false,
    }
}

/// The name of a key file: `author-<N><kind>.key`, with kind `""` for the operational key and
/// `".master"` for the master key.
pub open spec fn key_file_name(author: u64, kind: Seq<char>) -> Seq<char> {
    "author-"@ + decimal(author as nat) + kind + ".key"@
}

/// The path of an author's key in the file vault: `<root>/keys/author-<N><kind>.key`.
pub fn key_path(ws: &Workspace, author: u64, kind: &str) -> (p: String)
    ensures
        p@ == join(join(ws@, "keys"@), key_file_name(author, kind@)),
{
    let name = String::from_str("author-").concat(decimal_string(author).as_str()).concat(kind).concat(
        ".key",
    );
    let dir = ws.keys_dir();
    join_path(dir.as_str(), name.as_str())
}

/// The text stored for a key: the hex encoding of its seed.
pub fn encode_key(seed: &[u8; 32]) -> (s: String)
    ensures
        s@ == hex_of(seed@),
{
    hex_encode(seed)
}

/// The message for an absent key: `no <kind> key for author <N>`.
pub open spec fn missing_key_msg(author: u64, kind: Seq<char>) -> Seq<char> {
    "no "@ + kind + " key for author "@ + decimal(author as nat)
}

/// The message for undecodable key text: `malformed key for author <N>`.
pub open spec fn malformed_key_msg(author: u64) -> Seq<char> {
    "malformed key for author "@ + decimal(author as nat)
}

/// The error for a key that the vault does not hold.
pub fn missing_key(author: u64, kind: &str) -> (e: StudioError)
    ensures
        e matches StudioError::BadKey(m) && m@ == missing_key_msg(author, kind@),
{
    StudioError::BadKey(
        String::from_str("no ").concat(kind).concat(" key for author ").concat(
            decimal_string(author).as_str(),
        ),
    )
}

/// Decode stored key text: surrounding whitespace is ignored, the rest must be hex, and the bytes
/// must be a 32-byte seed.
pub fn decode_key(text: &str, author: u64) -> (r: Result<[u8; 32], StudioError>)
    ensures
        ({
            let t = choose|t: Seq<char>| is_trim_of(t, text@);
            &&& !is_hex(t) ==> (r matches Err(StudioError::BadKey(m)) && m@ == malformed_key_msg(author))
            &&& is_hex(t) && bytes_of_hex(t).len() != 32 ==> (r matches Err(StudioError::Aion(_)))
            &&& is_hex(t) && bytes_of_hex(t).len() == 32 ==> (r matches Ok(seed) && seed@
                == bytes_of_hex(t))
        }),
{
    let trimmed = trim_text(text);
    proof {
        lemma_trim_unique(trimmed@, text@);
    }
    match hex_decode(trimmed.as_str()) {
        None => Err(
            StudioError::BadKey(
                String::from_str("malformed key for author ").concat(decimal_string(author).as_str()),
            ),
        ),
        Some(bytes) => match seed_from_bytes(bytes.as_slice()) {
            Ok(seed) => Ok(seed),
            Err(e) => Err(StudioError::Aion(e)),
        },
    }
}

/// Storing a key and reading it back gives the same seed: the stored text is its own trimmed
/// form, is hex, and decodes to the seed's 32 bytes.
pub proof fn lemma_key_round_trip(seed: Seq<u8>)
    requires
        seed.len() == 32,
    ensures
        is_trim_of(hex_of(seed), hex_of(seed)),
        (choose|t: Seq<char>| is_trim_of(t, hex_of(seed))) == hex_of(seed),
        is_hex(hex_of(seed)),
        bytes_of_hex(hex_of(seed)) == seed,
{
    let h = hex_of(seed);
    lemma_hex_round_trip(seed);
    assert forall|k: int| 0 <= k < h.len() implies !is_space(#[trigger] h[k]) by {
        let b = seed[k / 2] as int;
        assert(0 <= b / 16 < 16 && 0 <= b % 16 < 16);
    }
    assert(h.subrange(0, h.len() as int) =~= h);
    assert(is_trim_of(h, h));
    lemma_trim_unique(h, h);
}

} // verus!
