//! Secret material: salts, password hashes, one-time codes.

use vstd::prelude::*;
use vstd::string::*;
use vstd::utf8::encode_utf8;
use rand::Rng;
use crate::text::string_of;
use crate::user::User;

verus! {

/// The number of characters of a salt.
pub const SALT_LEN: usize = 128;

/// The number of symbols a salt character is drawn from.
pub const SALT_SYMBOLS: usize = 73;

/// The greatest number of random characters of a code.
pub const MAX_CODE_LEN: usize = 64;

/// The alphabet of a salt: the letters and digits of ASCII and eleven
/// marks.
pub open spec fn salt_alphabet() -> Seq<char> {
    "ABCDEFGHIJKLMNOPQRSTUVWXYZabcdefghijklmnopqrstuvwxyz0123456789)(*&^%$#@!~"@
}

/// The characters a salt may hold.
pub open spec fn is_salt_char(c: char) -> bool {
    salt_alphabet().contains(c)
}

/// The letters and digits of ASCII.
pub open spec fn is_alphanumeric(c: char) -> bool {
    ('A' <= c <= 'Z') || ('a' <= c <= 'z') || ('0' <= c <= '9')
}

/// The alphabet of a salt has 73 characters, all of ASCII.
pub proof fn lemma_salt_alphabet()
    ensures
        salt_alphabet().len() == SALT_SYMBOLS,
        forall|c: char| #[trigger] is_salt_char(c) ==> '\0' <= c <= '\u{7f}',
{
    reveal_strlit("ABCDEFGHIJKLMNOPQRSTUVWXYZabcdefghijklmnopqrstuvwxyz0123456789)(*&^%$#@!~");
    assert forall|c: char| #[trigger] is_salt_char(c) implies '\0' <= c <= '\u{7f}' by {
        let i = choose|i: int| 0 <= i < salt_alphabet().len() && salt_alphabet()[i] == c;
        assert(salt_alphabet()[i] == c);
    }
}

/// The character of the salt alphabet at `idx`.
pub fn salt_char(idx: usize) -> (c: char)
    requires
        idx < SALT_SYMBOLS,
    ensures
        c == salt_alphabet()[idx as int],
        is_salt_char(c),
{
    proof {
        lemma_salt_alphabet();
    }
    let alphabet = "ABCDEFGHIJKLMNOPQRSTUVWXYZabcdefghijklmnopqrstuvwxyz0123456789)(*&^%$#@!~";
    alphabet.get_char(idx)
}

/// `rand::Rng::gen_range` on the generator of the current thread, with the
/// range `0..n`: some index below `n`. It panics on an empty range, which
/// the precondition excludes. A generator that the operating system cannot
/// seed ends the program.
#[verifier::external_body]
fn random_below(n: usize) -> (r: usize)
    requires
        n > 0,
    ensures
        r < n,
{
    rand::thread_rng().gen_range(0..n)
}

/// `rand::Rng::sample` of `rand::distributions::Alphanumeric` on the
/// generator of the current thread: one letter or digit of ASCII. A
/// generator that the operating system cannot seed ends the program.
#[verifier::external_body]
fn random_alphanumeric() -> (c: char)
    ensures
        is_alphanumeric(c),
{
    char::from(rand::thread_rng().sample(rand::distributions::Alphanumeric))
}

/// What holds of every salt: its length and its alphabet.
pub open spec fn is_salt(s: Seq<char>) -> bool {
    &&& s.len() == SALT_LEN
    &&& forall|i: int| 0 <= i < s.len() ==> is_salt_char(#[trigger] s[i])
}

/// Mints a salt: 128 characters, each drawn from the salt alphabet.
pub fn make_salt() -> (salt: String)
    ensures
        is_salt(salt@),
{
    let mut v: Vec<char> = Vec::new();
    while v.len() < SALT_LEN
        invariant
            v.len() <= SALT_LEN,
            forall|i: int| 0 <= i < v.len() ==> is_salt_char(#[trigger] v@[i]),
        decreases SALT_LEN - v.len(),
    {
        let idx = random_below(SALT_SYMBOLS);
        v.push(salt_char(idx));
    }
    string_of(&v)
}

/// The number of positions that dash insertion examines in a text of `n`
/// characters.
pub open spec fn dash_limit(n: int) -> int {
    n + n / 4
}

/// The number of dashes inserted into a text of `n` characters: one at
/// every position below the limit that is a multiple of four, from 4 on.
pub open spec fn dash_count(n: int) -> int {
    if dash_limit(n) <= 4 {
        0
    } else {
        (dash_limit(n) - 1) / 4
    }
}

/// Whether position `i` of the dashed form of a text of `n` characters
/// holds a dash.
pub open spec fn is_dash_position(i: int, n: int) -> bool {
    2 < i < dash_limit(n) && i % 4 == 0
}

/// The index in the base text of the character that stands at position `i`
/// of its dashed form, where that position holds no dash.
pub open spec fn base_index(i: int, n: int) -> int {
    if i / 4 < dash_count(n) {
        i - i / 4
    } else {
        i - dash_count(n)
    }
}

/// The dashed form of a text: a `-` at every fourth position after index 2,
/// the characters of the text, in order, at the others.
pub open spec fn dashed(base: Seq<char>) -> Seq<char> {
    Seq::new(
        (base.len() + dash_count(base.len() as int)) as nat,
        |i: int|
            if is_dash_position(i, base.len() as int) {
                '-'
            } else {
                base[base_index(i, base.len() as int)]
            },
    )
}

/// Inserts the dashes that make a code easier to read and to type.
pub fn insert_dashes(base: &str) -> (r: String)
    requires
        base@.len() <= usize::MAX / 2,
    ensures
        r@ == dashed(base@),
{
    let v = crate::text::chars_of(base);
    let out = dash_chars(&v);
    string_of(&out)
}

fn dash_chars(v: &Vec<char>) -> (out: Vec<char>)
    requires
        v@.len() <= usize::MAX / 2,
    ensures
        out@ == dashed(v@),
{
    let n: usize = v.len();
    let limit: usize = n + n / 4;
    let count: usize = if limit <= 4 {
        0
    } else {
        (limit - 1) / 4
    };
    let total: usize = n + count;
    let mut out: Vec<char> = Vec::new();
    let mut i: usize = 0;
    while i < total
        invariant
            n == v.len(),
            limit == dash_limit(n as int),
            count == dash_count(n as int),
            total == n + count,
            i <= total,
            out.len() == i,
            forall|k: int| 0 <= k < i ==> #[trigger] out@[k] == dashed(v@)[k],
        decreases total - i,
    {
        if i > 2 && i < limit && i % 4 == 0 {
            out.push('-');
        } else {
            let skipped: usize = if i / 4 < count {
                i / 4
            } else {
                count
            };
            out.push(v[i - skipped]);
        }
        i += 1;
    }
    assert(out@ =~= dashed(v@));
    out
}

/// What holds of the random part of a code of `n` characters.
pub open spec fn is_code_base(base: Seq<char>, n: int) -> bool {
    &&& base.len() == n
    &&& forall|i: int| 0 <= i < base.len() ==> is_alphanumeric(#[trigger] base[i])
}

/// The number of random characters of a code asked for with `characters`.
pub open spec fn code_len(characters: int) -> int {
    if characters > MAX_CODE_LEN {
        MAX_CODE_LEN as int
    } else {
        characters
    }
}

/// What holds of every code minted for `characters` characters.
pub open spec fn is_code(code: Seq<char>, characters: int, dashes: bool) -> bool {
    exists|base: Seq<char>|
        #[trigger] is_code_base(base, code_len(characters)) && code == if dashes {
            dashed(base)
        } else {
            base
        }
}

/// Mints a code of `characters` random letters and digits, 64 at most, with
/// dashes inserted if `dashes` is set.
pub fn generate_unique_code(characters: usize, dashes: bool) -> (code: String)
    ensures
        is_code(code@, characters as int, dashes),
{
    let n: usize = if characters > MAX_CODE_LEN {
        MAX_CODE_LEN
    } else {
        characters
    };
    let mut v: Vec<char> = Vec::new();
    while v.len() < n
        invariant
            v.len() <= n,
            forall|i: int| 0 <= i < v.len() ==> is_alphanumeric(#[trigger] v@[i]),
        decreases n - v.len(),
    {
        v.push(random_alphanumeric());
    }
    assert(is_code_base(v@, code_len(characters as int)));
    if dashes {
        let out = dash_chars(&v);
        string_of(&out)
    } else {
        string_of(&v)
    }
}

/// The encoded Argon2 hash of a password under a salt, with the default
/// parameters of the `argon2` crate.
pub uninterp spec fn argon2_encoded(password: Seq<char>, salt: Seq<char>) -> Seq<char>;

/// The inputs that the hasher accepts: a salt of 8 bytes at least, and no
/// more than `u32::MAX` bytes of either.
pub open spec fn hashable(password: Seq<char>, salt: Seq<char>) -> bool {
    &&& encode_utf8(password).len() <= 0xFFFF_FFFF
    &&& 8 <= encode_utf8(salt).len() <= 0xFFFF_FFFF
}

/// The head of every encoded hash: the variant, the version and the costs
/// of the default parameters.
pub open spec fn argon2_header() -> Seq<char> {
    "$argon2i$v=19$m=4096,t=3,p=1$"@
}

/// `argon2::hash_encoded` with `argon2::Config::default()`: the encoded
/// hash of the bytes of `password` under the bytes of `salt`. With that
/// configuration it fails only on a salt shorter than 8 bytes or on an input
/// longer than `u32::MAX` bytes, which the precondition excludes. The result
/// depends on the two texts alone; it is not empty and begins with the
/// variant, the version and the costs of that configuration.
#[verifier::external_body]
pub fn make_hash(password: &str, salt: &str) -> (encoded: String)
    requires
        hashable(password@, salt@),
    ensures
        encoded@ == argon2_encoded(password@, salt@),
        encoded@.len() > 0,
        argon2_header().is_prefix_of(encoded@),
{
    argon2::hash_encoded(password.as_bytes(), salt.as_bytes(), &argon2::Config::default()).unwrap()
}

/// The bytes stored for a password under a salt.
pub open spec fn password_hash(password: Seq<char>, salt: Seq<char>) -> Seq<u8> {
    encode_utf8(argon2_encoded(password, salt))
}

/// Tells whether the hasher accepts `password` and `salt`.
pub fn check_hashable(password: &str, salt: &str) -> (b: bool)
    ensures
        b == hashable(password@, salt@),
{
    let p = password.as_bytes();
    let s = salt.as_bytes();
    p.len() <= 0xFFFF_FFFF && 8 <= s.len() && s.len() <= 0xFFFF_FFFF
}

/// Hashes a password under a salt, where the hasher accepts them.
pub fn hash_password(password: &str, salt: &str) -> (r: Option<Vec<u8>>)
    ensures
        match r {
            Some(h) => {
                &&& hashable(password@, salt@)
                &&& h@ == password_hash(password@, salt@)
                &&& argon2_header().is_prefix_of(argon2_encoded(password@, salt@))
            },
            None => !hashable(password@, salt@),
        },
{
    if check_hashable(password, salt) {
        let encoded = make_hash(password, salt);
        Some(encoded.as_str().as_bytes_vec())
    } else {
        None
    }
}

/// Whether `candidate` is accepted for a stored salt and hash.
pub open spec fn password_matches(candidate: Seq<char>, salt: Seq<char>, hash: Seq<u8>) -> bool {
    hashable(candidate, salt) && password_hash(candidate, salt) == hash
}

/// Compares two byte strings in time that depends on their lengths alone.
pub fn bytes_eq(a: &Vec<u8>, b: &Vec<u8>) -> (r: bool)
    ensures
        r == (a@ == b@),
{
    if a.len() != b.len() {
        return false;
    }
    let mut acc: u8 = 0;
    let mut i: usize = 0;
    assert(a@.subrange(0, 0) =~= b@.subrange(0, 0));
    while i < a.len()
        invariant
            a.len() == b.len(),
            i <= a.len(),
            (acc == 0) == (a@.subrange(0, i as int) == b@.subrange(0, i as int)),
        decreases a.len() - i,
    {
        let x: u8 = a[i];
        let y: u8 = b[i];
        let prev: u8 = acc;
        acc = acc | (x ^ y);
        assert((prev | (x ^ y)) == 0 <==> (prev == 0 && x == y)) by (bit_vector);
        proof {
            let pa = a@.subrange(0, i as int);
            let pb = b@.subrange(0, i as int);
            let qa = a@.subrange(0, i + 1);
            let qb = b@.subrange(0, i + 1);
            assert(qa =~= pa.push(x));
            assert(qb =~= pb.push(y));
            if qa == qb {
                assert(qa.drop_last() =~= pa);
                assert(qb.drop_last() =~= pb);
                assert(qa.last() == x && qb.last() == y);
            }
        }
        i += 1;
    }
    assert(a@ =~= a@.subrange(0, a.len() as int));
    assert(b@ =~= b@.subrange(0, b.len() as int));
    acc == 0
}

/// Checks a candidate password against a stored salt and hash.
pub fn check_password(candidate: &str, salt: &str, hash: &Vec<u8>) -> (ok: bool)
    ensures
        ok == password_matches(candidate@, salt@, hash@),
{
    match hash_password(candidate, salt) {
        Some(h) => bytes_eq(&h, hash),
        None => false,
    }
}

/// Checks a candidate password against the salt and the hash of a user.
pub fn verify(user: &User, password: &str) -> (ok: bool)
    ensures
        ok == password_matches(password@, user@.salt, user@.hash),
{
    check_password(password, user.salt.as_str(), &user.hash)
}

} // verus!
