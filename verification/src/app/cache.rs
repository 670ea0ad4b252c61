//! The on-disk cache: versioned, hashed entry identities and where they live.
//!
//! The file system work (reading, publishing, archiving) is done by the program
//! around this library; here stand the identities, the paths they map to, and the
//! names under which archived entries are recognised again.
use vstd::prelude::*;

use sha2::Digest;

use crate::lang::{self, Lang};
use crate::text::{chars_of, push_char, str_eq, string_of};

verus! {

/// Names the bytes that `serde_json::to_vec` writes for the identity tuple
/// `(version, provider, language, word)`, the language given by its code.
pub uninterp spec fn identity_json(
    version: u32,
    provider: Seq<char>,
    lang_code: Seq<char>,
    word: Seq<char>,
) -> Seq<u8>;

/// Names the SHA-256 digest that `sha2` computes of `data`.
pub uninterp spec fn sha256(data: Seq<u8>) -> Seq<u8>;

/// Calls `serde_json::to_vec` on `(version, provider, lang, word)`, where `lang` is the
/// `whatlang::Lang` that `whatlang::Lang::from_code` gives for `lang_code`.
/// Claims that the bytes are `identity_json` of the arguments, and that neither call
/// fails: every code of `is_lang_code` is one that `from_code` matches, and writing a
/// number, two strings and a unit enum variant into a vector cannot fail.
#[verifier::external_body]
fn identity_json_bytes(version: u32, provider: &str, lang_code: &str, word: &str) -> (r: Vec<u8>)
    requires
        lang::is_lang_code(lang_code@),
    ensures
        r@ == identity_json(version, provider@, lang_code@, word@),
{
    let lang = whatlang::Lang::from_code(lang_code).expect("known language code");
    serde_json::to_vec(&(version, provider, lang, word)).expect("identity fields serialize")
}

/// Calls `sha2::Sha256::digest`. Claims that the digest is `sha256(data)` and, as its
/// output type fixes, 32 bytes long.
#[verifier::external_body]
fn sha256_digest(data: &[u8]) -> (r: Vec<u8>)
    ensures
        r@ == sha256(data@),
        r@.len() == 32,
{
    sha2::Sha256::digest(data).to_vec()
}

/// Why a cache operation refused its input.
#[derive(Clone, Copy, Debug, PartialEq, Eq, Structural)]
pub enum CacheError {
    /// The file format is neither `bin` nor `mp3`.
    UnsupportedFormat,
    /// A name with the versioned prefix does not carry a 64-digit hex digest.
    InvalidDigest,
    /// An archived file name has no format extension, or an unknown one.
    InvalidArchiveName,
}

/// The prefix of versioned identities.
pub open spec fn key_prefix() -> Seq<char> {
    seq!['v', '1', '-']
}

/// The lower-case hex digit of `d < 16`.
pub open spec fn hex_digit(d: nat) -> char {
    if d < 10 {
        (48 + d) as char
    } else {
        (87 + d) as char
    }
}

/// The lower-case hex encoding of `data`, two digits per byte (`{:x}`).
pub open spec fn hex_lower(data: Seq<u8>) -> Seq<char>
    decreases data.len(),
{
    if data.len() == 0 {
        Seq::empty()
    } else {
        hex_lower(data.drop_last()) + seq![
            hex_digit((data.last() / 16) as nat),
            hex_digit((data.last() % 16) as nat),
        ]
    }
}

/// The identity of `word` in `lang` from `provider`, format `version`.
pub open spec fn key_of(word: Seq<char>, lang: Lang, provider: Seq<char>, version: u32) -> Seq<
    char,
> {
    key_prefix() + hex_lower(sha256(identity_json(version, provider, lang::lang_code(lang), word)))
}

pub open spec fn is_lower_hex(c: char) -> bool {
    ('0' <= c && c <= '9') || ('a' <= c && c <= 'f')
}

pub open spec fn is_ascii_hex(c: char) -> bool {
    ('0' <= c && c <= '9') || ('a' <= c && c <= 'f') || ('A' <= c && c <= 'F')
}

/// `c` with an ASCII upper-case letter turned to lower case.
pub open spec fn ascii_lower(c: char) -> char {
    if 'A' <= c && c <= 'Z' {
        ((c as u32) + 32) as char
    } else {
        c
    }
}

pub open spec fn ascii_lowercase(s: Seq<char>) -> Seq<char> {
    s.map_values(|c: char| ascii_lower(c))
}

/// The shape of every identity: the prefix and 64 lower-case hex digits.
pub open spec fn is_key(s: Seq<char>) -> bool {
    &&& s.len() == 67
    &&& s.subrange(0, 3) == key_prefix()
    &&& forall|i: int| 3 <= i < 67 ==> is_lower_hex(#[trigger] s[i])
}

/// The two file formats the cache keeps.
pub open spec fn bin_format() -> Seq<char> {
    seq!['b', 'i', 'n']
}

pub open spec fn mp3_format() -> Seq<char> {
    seq!['m', 'p', '3']
}

pub open spec fn is_format(suffix: Seq<char>) -> bool {
    suffix == bin_format() || suffix == mp3_format()
}

/// The provider of dictionary entries.
pub open spec fn youdao_provider() -> Seq<char> {
    seq!['y', 'o', 'u', 'd', 'a', 'o']
}

/// The provider of spoken audio.
pub open spec fn tts_provider() -> Seq<char> {
    seq!['g', 'o', 'o', 'g', 'l', 'e', '-', 't', 't', 's']
}

/// The provider that names legacy archive entries of a format.
pub open spec fn legacy_provider(suffix: Seq<char>) -> Seq<char> {
    if suffix == bin_format() {
        youdao_provider()
    } else {
        tts_provider()
    }
}

/// What an archived entry's base name identifies: a versioned identity as written
/// (in lower case), or a legacy raw English word.
pub open spec fn archive_key(name: Seq<char>, suffix: Seq<char>) -> Result<Seq<char>, CacheError> {
    if name.len() >= 3 && name.subrange(0, 3) == key_prefix() {
        if name.len() == 67 && (forall|i: int| 3 <= i < 67 ==> is_ascii_hex(#[trigger] name[i])) {
            Ok(ascii_lowercase(name))
        } else {
            Err(CacheError::InvalidDigest)
        }
    } else {
        Ok(key_of(name, Lang::Eng, legacy_provider(suffix), 1))
    }
}

/// `s` split at its last `.` (`str::rsplit_once('.')`).
pub open spec fn rsplit_dot(s: Seq<char>) -> Option<(Seq<char>, Seq<char>)>
    decreases s.len(),
{
    if s.len() == 0 {
        None
    } else if s.last() == '.' {
        Some((s.drop_last(), Seq::empty()))
    } else {
        match rsplit_dot(s.drop_last()) {
            Some(parts) => Some((parts.0, parts.1.push(s.last()))),
            None => None,
        }
    }
}

/// What an archived file name identifies: its identity and format.
pub open spec fn archive_entry_of(file: Seq<char>) -> Result<(Seq<char>, Seq<char>), CacheError> {
    match rsplit_dot(file) {
        None => Err(CacheError::InvalidArchiveName),
        Some(parts) => if is_format(parts.1) {
            match archive_key(parts.0, parts.1) {
                Ok(key) => Ok((key, parts.1)),
                Err(e) => Err(e),
            }
        } else {
            Err(CacheError::InvalidArchiveName)
        },
    }
}

/// The file name under which an entry is stored and archived.
pub open spec fn file_name(key: Seq<char>, suffix: Seq<char>) -> Seq<char> {
    key + seq!['.'] + suffix
}

/// `comp` appended to the path `base` as one more component (`PathBuf::push` of a
/// relative component, with `/` as separator).
pub open spec fn path_join(base: Seq<char>, comp: Seq<char>) -> Seq<char> {
    if base.len() == 0 {
        comp
    } else if base.last() == '/' {
        base + comp
    } else {
        base + seq!['/'] + comp
    }
}

/// Where the cache under `dir` keeps `key` in format `suffix`: a shard directory named
/// by the first two digest digits, then the file.
pub open spec fn entry_path(dir: Seq<char>, key: Seq<char>, suffix: Seq<char>) -> Seq<char> {
    path_join(path_join(dir, key.subrange(3, 5)), file_name(key, suffix))
}

/// A single path component that cannot leave its directory.
pub open spec fn is_plain_component(c: Seq<char>) -> bool {
    &&& c.len() > 0
    &&& forall|i: int| 0 <= i < c.len() ==> #[trigger] c[i] != '/' && c[i] != '\\'
    &&& c != seq!['.']
    &&& c != seq!['.', '.']
}

/// A versioned, hashed cache identity, independent of file system path syntax.
#[derive(Debug, PartialEq, Eq)]
pub struct CacheKey(String);

impl CacheKey {
    #[verifier::type_invariant]
    spec fn inv(self) -> bool {
        is_key(self.0@)
    }
}

impl View for CacheKey {
    type V = Seq<char>;

    closed spec fn view(&self) -> Seq<char> {
        self.0@
    }
}

impl Clone for CacheKey {
    fn clone(&self) -> (r: Self)
        ensures
            r@ == self@,
    {
        proof {
            use_type_invariant(self);
        }
        CacheKey(self.0.clone())
    }
}

proof fn lemma_hex_lower(data: Seq<u8>)
    ensures
        hex_lower(data).len() == 2 * data.len(),
        forall|i: int| 0 <= i < hex_lower(data).len() ==> is_lower_hex(#[trigger] hex_lower(data)[i]),
    decreases data.len(),
{
    if data.len() > 0 {
        lemma_hex_lower(data.drop_last());
        let h = hex_lower(data.drop_last());
        let d1 = (data.last() / 16) as nat;
        let d2 = (data.last() % 16) as nat;
        assert(is_lower_hex(hex_digit(d1)));
        assert(is_lower_hex(hex_digit(d2)));
        assert forall|i: int| 0 <= i < hex_lower(data).len() implies is_lower_hex(
            #[trigger] hex_lower(data)[i],
        ) by {
            if i < h.len() {
                assert(hex_lower(data)[i] == h[i]);
            }
        }
    }
}

/// Each byte is written as two lower-case hex digits, high nibble first, in the
/// order of the bytes.
pub proof fn lemma_hex_lower_digits(data: Seq<u8>)
    ensures
        hex_lower(data).len() == 2 * data.len(),
        forall|i: int|
            #![trigger data[i]]
            0 <= i < data.len() ==> hex_lower(data)[2 * i] == hex_digit((data[i] / 16) as nat)
                && hex_lower(data)[2 * i + 1] == hex_digit((data[i] % 16) as nat),
    decreases data.len(),
{
    if data.len() > 0 {
        let init = data.drop_last();
        lemma_hex_lower_digits(init);
        assert forall|i: int| #![trigger data[i]] 0 <= i < data.len() implies hex_lower(data)[2 * i]
            == hex_digit((data[i] / 16) as nat) && hex_lower(data)[2 * i + 1] == hex_digit(
            (data[i] % 16) as nat,
        ) by {
            if i < data.len() - 1 {
                assert(init[i] == data[i]);
            }
        }
    }
}

/// There is no last dot to split at exactly when the name holds no dot.
pub proof fn lemma_rsplit_dot_none(s: Seq<char>)
    ensures
        rsplit_dot(s) is None <==> (forall|i: int| 0 <= i < s.len() ==> #[trigger] s[i] != '.'),
    decreases s.len(),
{
    if s.len() > 0 {
        let init = s.drop_last();
        lemma_rsplit_dot_none(init);
        if s.last() == '.' {
            assert(s[s.len() - 1] == '.');
        } else {
            if forall|i: int| 0 <= i < init.len() ==> #[trigger] init[i] != '.' {
                assert forall|i: int| 0 <= i < s.len() implies #[trigger] s[i] != '.' by {
                    if i < s.len() - 1 {
                        assert(s[i] == init[i]);
                    }
                }
            } else {
                let j = choose|j: int| 0 <= j < init.len() && init[j] == '.';
                assert(s[j] == init[j]);
            }
        }
    }
}

/// Every identity made from a word has the versioned shape.
pub proof fn lemma_key_shape(word: Seq<char>, lang: Lang, provider: Seq<char>, version: u32)
    requires
        sha256(identity_json(version, provider, lang::lang_code(lang), word)).len() == 32,
    ensures
        is_key(key_of(word, lang, provider, version)),
{
    let d = sha256(identity_json(version, provider, lang::lang_code(lang), word));
    lemma_hex_lower(d);
    let k = key_of(word, lang, provider, version);
    assert(k.subrange(0, 3) =~= key_prefix());
    assert forall|i: int| 3 <= i < 67 implies is_lower_hex(#[trigger] k[i]) by {
        assert(k[i] == hex_lower(d)[i - 3]);
    }
}

pub proof fn lemma_format_literals()
    ensures
        "bin"@ == bin_format(),
        "mp3"@ == mp3_format(),
{
    reveal_strlit("bin");
    reveal_strlit("mp3");
    assert("bin"@ =~= bin_format());
    assert("mp3"@ =~= mp3_format());
}

/// Splitting at the last dot finds that dot: whatever precedes a dot after which no
/// dot follows is the stem, and what follows it is the extension.
pub proof fn lemma_rsplit_after_dot(s: Seq<char>, t: Seq<char>)
    requires
        forall|i: int| 0 <= i < t.len() ==> #[trigger] t[i] != '.',
    ensures
        rsplit_dot(s + seq!['.'] + t) == Some((s, t)),
    decreases t.len(),
{
    let whole = s + seq!['.'] + t;
    if t.len() == 0 {
        assert(whole.drop_last() =~= s);
    } else {
        lemma_rsplit_after_dot(s, t.drop_last());
        assert(whole.drop_last() =~= s + seq!['.'] + t.drop_last());
        assert(t.drop_last().push(t.last()) =~= t);
    }
}

proof fn lemma_key_is_lowercase(key: Seq<char>)
    requires
        is_key(key),
    ensures
        ascii_lowercase(key) == key,
        forall|i: int| 3 <= i < 67 ==> is_ascii_hex(#[trigger] key[i]),
{
    assert forall|i: int| 0 <= i < key.len() implies #[trigger] ascii_lower(key[i]) == key[i] by {
        if i < 3 {
            assert(key[i] == key.subrange(0, 3)[i]);
        }
    }
    assert(ascii_lowercase(key) =~= key);
}

/// An identity read back from an archived entry's base name is the identity itself.
pub proof fn lemma_archive_name_round_trip(key: Seq<char>, suffix: Seq<char>)
    requires
        is_key(key),
    ensures
        archive_key(key, suffix) == Ok::<Seq<char>, CacheError>(key),
{
    lemma_key_is_lowercase(key);
}

/// Archives preserve hashed identities: the file name under which an entry is stored
/// (and exported) names the same identity and format when it is imported.
pub proof fn lemma_archive_entry_round_trip(key: Seq<char>, suffix: Seq<char>)
    requires
        is_key(key),
        is_format(suffix),
    ensures
        archive_entry_of(file_name(key, suffix)) == Ok::<(Seq<char>, Seq<char>), CacheError>(
            (key, suffix),
        ),
{
    lemma_rsplit_after_dot(key, suffix);
    lemma_archive_name_round_trip(key, suffix);
}

/// Arbitrary queries remain inside the cache: an entry's path is the cache directory
/// followed by two components, neither of which holds a separator or is `.` or `..`,
/// whatever word, language or provider the identity was made of.
pub proof fn lemma_entry_path_inside_cache(dir: Seq<char>, key: Seq<char>, suffix: Seq<char>)
    requires
        is_key(key),
        is_format(suffix),
    ensures
        entry_path(dir, key, suffix) == path_join(
            path_join(dir, key.subrange(3, 5)),
            file_name(key, suffix),
        ),
        is_plain_component(key.subrange(3, 5)),
        is_plain_component(file_name(key, suffix)),
        entry_path(dir, key, suffix).subrange(0, dir.len() as int) == dir,
{
    let shard = key.subrange(3, 5);
    assert(is_lower_hex(key[3]) && is_lower_hex(key[4]));
    assert(shard[0] == key[3]);
    assert(shard != seq!['.']);
    assert(shard != seq!['.', '.']) by {
        assert(shard[0] == key[3]);
    }
    let f = file_name(key, suffix);
    assert forall|i: int| 0 <= i < f.len() implies #[trigger] f[i] != '/' && f[i] != '\\' by {
        if i < 3 {
            assert(f[i] == key.subrange(0, 3)[i]);
        } else if i < 67 {
            assert(f[i] == key[i]);
        } else if i > 67 {
            assert(f[i] == suffix[i - 68]);
        }
    }
    assert(f.len() > 2);
    let p = path_join(dir, shard);
    assert(p.subrange(0, dir.len() as int) =~= dir);
    assert(path_join(p, f).subrange(0, dir.len() as int) =~= dir) by {
        assert(path_join(p, f).subrange(0, p.len() as int) =~= p);
    }
}

/// Distinct entries never share a file: within one cache directory, the path of an
/// entry determines its identity and its format.
pub proof fn lemma_entry_paths_are_distinct(
    dir: Seq<char>,
    k1: Seq<char>,
    s1: Seq<char>,
    k2: Seq<char>,
    s2: Seq<char>,
)
    requires
        is_key(k1),
        is_key(k2),
        is_format(s1),
        is_format(s2),
        entry_path(dir, k1, s1) == entry_path(dir, k2, s2),
    ensures
        k1 == k2,
        s1 == s2,
{
    let p1 = path_join(dir, k1.subrange(3, 5));
    let p2 = path_join(dir, k2.subrange(3, 5));
    assert(is_lower_hex(k1[4]) && is_lower_hex(k2[4]));
    assert(p1.last() == k1[4]);
    assert(p2.last() == k2[4]);
    assert(p1.len() == p2.len());
    let f1 = file_name(k1, s1);
    let f2 = file_name(k2, s2);
    let e1 = entry_path(dir, k1, s1);
    let e2 = entry_path(dir, k2, s2);
    assert(e1 == p1 + seq!['/'] + f1);
    assert(e2 == p2 + seq!['/'] + f2);
    assert(f1.len() == 71 && f2.len() == 71);
    assert forall|i: int| 0 <= i < 71 implies f1[i] == f2[i] by {
        assert(f1[i] == e1[p1.len() + 1 + i]);
        assert(f2[i] == e2[p2.len() + 1 + i]);
    }
    assert(f1 =~= f2);
    assert forall|i: int| 0 <= i < 67 implies k1[i] == k2[i] by {
        assert(k1[i] == f1[i]);
        assert(k2[i] == f2[i]);
    }
    assert(k1 =~= k2);
    assert forall|i: int| 0 <= i < 3 implies s1[i] == s2[i] by {
        assert(s1[i] == f1[68 + i]);
        assert(s2[i] == f2[68 + i]);
    }
    assert(s1 =~= s2);
}

/// The provider names as written in the code.
pub proof fn lemma_provider_literals()
    ensures
        "youdao"@ == youdao_provider(),
        "google-tts"@ == tts_provider(),
{
    reveal_strlit("youdao");
    reveal_strlit("google-tts");
    assert("youdao"@ =~= youdao_provider());
    assert("google-tts"@ =~= tts_provider());
}

fn hex_char(d: u8) -> (c: char)
    requires
        d < 16,
    ensures
        c == hex_digit(d as nat),
{
    if d < 10 {
        (d + 48) as char
    } else {
        (d + 87) as char
    }
}

impl CacheKey {
    /// The identity of `word` in `language` from `provider`, format `version`: the
    /// lower-case hex SHA-256 of the length-delimited JSON of the four fields, after the
    /// version prefix.
    pub fn new(word: &str, language: Lang, provider: &str, version: u32) -> (r: CacheKey)
        ensures
            r@ == key_of(word@, language, provider@, version),
            is_key(r@),
    {
        let identity = identity_json_bytes(version, provider, language.code(), word);
        let digest = sha256_digest(identity.as_slice());
        let mut s = String::new();
        push_char(&mut s, 'v');
        push_char(&mut s, '1');
        push_char(&mut s, '-');
        assert(s@ =~= key_prefix());
        let mut i: usize = 0;
        while i < digest.len()
            invariant
                i <= digest@.len(),
                s@ == key_prefix() + hex_lower(digest@.take(i as int)),
            decreases digest@.len() - i,
        {
            assert(digest@.take(i + 1).drop_last() =~= digest@.take(i as int));
            let b = digest[i];
            push_char(&mut s, hex_char(b / 16));
            push_char(&mut s, hex_char(b % 16));
            assert(s@ =~= key_prefix() + hex_lower(digest@.take(i + 1)));
            i = i + 1;
        }
        assert(digest@.take(digest@.len() as int) =~= digest@);
        proof {
            lemma_key_shape(word@, language, provider@, version);
        }
        CacheKey(s)
    }

    /// The identity as text.
    pub fn as_str(&self) -> (r: &str)
        ensures
            r@ == self@,
            is_key(r@),
    {
        proof {
            use_type_invariant(self);
        }
        self.0.as_str()
    }

    /// The identity named by an archived entry's base name: a versioned identity is
    /// taken as written (in lower case), anything else is a legacy export of a raw
    /// English word, whose provider the format tells.
    pub fn from_archive_name(name: &str, suffix: &str) -> (r: Result<CacheKey, CacheError>)
        ensures
            match r {
                Ok(key) => archive_key(name@, suffix@) == Ok::<Seq<char>, CacheError>(key@)
                    && is_key(key@),
                Err(e) => archive_key(name@, suffix@) == Err::<Seq<char>, CacheError>(e),
            },
    {
        let cs = chars_of(name);
        let n = cs.len();
        if n >= 3 && cs[0] == 'v' && cs[1] == '1' && cs[2] == '-' {
            assert(name@.subrange(0, 3) =~= key_prefix());
            if n != 67 {
                return Err(CacheError::InvalidDigest);
            }
            let mut s = String::new();
            let mut i: usize = 0;
            while i < n
                invariant
                    cs@ == name@,
                    n == cs@.len(),
                    n == 67,
                    name@.subrange(0, 3) == key_prefix(),
                    i <= n,
                    forall|j: int| 3 <= j < i ==> is_ascii_hex(#[trigger] cs@[j]),
                    s@ == ascii_lowercase(cs@.take(i as int)),
                decreases n - i,
            {
                let c = cs[i];
                if i >= 3 && !(('0' <= c && c <= '9') || ('a' <= c && c <= 'f') || ('A' <= c && c
                    <= 'F')) {
                    assert(!is_ascii_hex(name@[i as int]));
                    assert(!(forall|k: int| 3 <= k < 67 ==> is_ascii_hex(#[trigger] name@[k])));
                    return Err(CacheError::InvalidDigest);
                }
                let lower = if 'A' <= c && c <= 'Z' {
                    ((c as u8) + 32) as char
                } else {
                    c
                };
                push_char(&mut s, lower);
                assert(s@ =~= ascii_lowercase(cs@.take(i + 1)));
                i = i + 1;
            }
            assert(cs@.take(67) =~= cs@);
            assert(is_key(s@)) by {
                assert(s@.subrange(0, 3) =~= key_prefix());
                assert forall|j: int| 3 <= j < 67 implies is_lower_hex(#[trigger] s@[j]) by {
                    assert(is_ascii_hex(cs@[j]));
                }
            }
            Ok(CacheKey(s))
        } else {
            assert(!(name@.len() >= 3 && name@.subrange(0, 3) == key_prefix())) by {
                if name@.len() >= 3 && name@.subrange(0, 3) == key_prefix() {
                    assert(name@[0] == name@.subrange(0, 3)[0]);
                    assert(name@[1] == name@.subrange(0, 3)[1]);
                    assert(name@[2] == name@.subrange(0, 3)[2]);
                }
            }
            let provider = if str_eq(suffix, "bin") {
                "youdao"
            } else {
                "google-tts"
            };
            proof {
                lemma_format_literals();
                lemma_provider_literals();
                assert(provider@ == legacy_provider(suffix@));
            }
            Ok(CacheKey::new(name, Lang::Eng, provider, 1))
        }
    }

    /// The name of this entry's file in format `suffix`.
    pub fn file_name(&self, suffix: &str) -> (r: String)
        ensures
            r@ == file_name(self@, suffix@),
    {
        let mut r = self.0.clone();
        push_char(&mut r, '.');
        r.append(suffix);
        r
    }
}

/// Where the cache keeps its entries, its old entries and its scratch files.
#[derive(Debug)]
pub struct Cache {
    cache_dir: String,
    vault_dir: String,
    tmp_dir: String,
}

impl Clone for Cache {
    fn clone(&self) -> (r: Self)
        ensures
            r.cache_dir_view() == self.cache_dir_view(),
            r.vault_dir_view() == self.vault_dir_view(),
            r.tmp_dir_view() == self.tmp_dir_view(),
    {
        Cache {
            cache_dir: self.cache_dir.clone(),
            vault_dir: self.vault_dir.clone(),
            tmp_dir: self.tmp_dir.clone(),
        }
    }
}

impl Cache {
    /// The entry directory.
    pub closed spec fn cache_dir_view(&self) -> Seq<char> {
        self.cache_dir@
    }

    /// The old-entry directory.
    pub closed spec fn vault_dir_view(&self) -> Seq<char> {
        self.vault_dir@
    }

    /// The scratch directory.
    pub closed spec fn tmp_dir_view(&self) -> Seq<char> {
        self.tmp_dir@
    }

    pub fn new(cache_dir: String, vault_dir: String, tmp_dir: String) -> (r: Self)
        ensures
            r.cache_dir_view() == cache_dir@,
            r.vault_dir_view() == vault_dir@,
            r.tmp_dir_view() == tmp_dir@,
    {
        Cache { cache_dir, vault_dir, tmp_dir }
    }

    /// The entry directory, which is what the cache shows of itself.
    pub fn show(&self) -> (r: &String)
        ensures
            r@ == self.cache_dir_view(),
    {
        &self.cache_dir
    }

    /// The old-entry directory.
    pub fn vault_dir(&self) -> (r: &String)
        ensures
            r@ == self.vault_dir_view(),
    {
        &self.vault_dir
    }

    /// The scratch directory.
    pub fn tmp_dir(&self) -> (r: &String)
        ensures
            r@ == self.tmp_dir_view(),
    {
        &self.tmp_dir
    }

    /// Where `key` is kept in format `suffix`; only `bin` and `mp3` are kept.
    pub fn get_file_path(&self, key: &CacheKey, suffix: &str) -> (r: Result<String, CacheError>)
        ensures
            is_format(suffix@) ==> (r matches Ok(p) && p@ == entry_path(
                self.cache_dir_view(),
                key@,
                suffix@,
            )),
            !is_format(suffix@) ==> r == Err::<String, CacheError>(CacheError::UnsupportedFormat),
    {
        proof {
            use_type_invariant(key);
            lemma_format_literals();
        }
        if !(str_eq(suffix, "bin") || str_eq(suffix, "mp3")) {
            return Err(CacheError::UnsupportedFormat);
        }
        let kc = chars_of(key.as_str());
        let shard = string_of(&kc, 3, 5);
        let dir = join_path(&self.cache_dir, &shard);
        Ok(join_path(&dir, &key.file_name(suffix)))
    }
}

/// `comp` appended to `base` as one more path component.
pub fn join_path(base: &String, comp: &String) -> (r: String)
    ensures
        r@ == path_join(base@, comp@),
{
    let n = base.unicode_len();
    let mut r = base.clone();
    if n > 0 && base.as_str().get_char(n - 1) != '/' {
        push_char(&mut r, '/');
    }
    r.append(comp.as_str());
    r
}

/// The identity and format of an archived file, from its name.
pub fn archive_entry(file: &str) -> (r: Result<(CacheKey, &'static str), CacheError>)
    ensures
        match r {
            Ok((key, suffix)) => archive_entry_of(file@) == Ok::<(Seq<char>, Seq<char>), CacheError>(
                (key@, suffix@),
            ),
            Err(e) => archive_entry_of(file@) == Err::<(Seq<char>, Seq<char>), CacheError>(e),
        },
{
    let cs = chars_of(file);
    let n = cs.len();
    let mut j: usize = n;
    assert(cs@.take(n as int) =~= cs@);
    assert(cs@.subrange(n as int, n as int) =~= Seq::<char>::empty());
    while j > 0 && cs[j - 1] != '.'
        invariant
            cs@ == file@,
            n == cs@.len(),
            j <= n,
            rsplit_dot(cs@) == match rsplit_dot(cs@.take(j as int)) {
                Some(parts) => Some((parts.0, parts.1 + cs@.subrange(j as int, n as int))),
                None => None::<(Seq<char>, Seq<char>)>,
            },
        decreases j,
    {
        assert(cs@.take(j as int).drop_last() =~= cs@.take(j - 1));
        assert(cs@.take(j as int).last() == cs@[j - 1]);
        proof {
            match rsplit_dot(cs@.take(j - 1)) {
                Some(parts) => {
                    assert(parts.1.push(cs@[j - 1]) + cs@.subrange(j as int, n as int) =~= parts.1
                        + cs@.subrange(j - 1, n as int));
                },
                None => {},
            }
        }
        j = j - 1;
    }
    if j == 0 {
        assert(cs@.take(0) =~= Seq::<char>::empty());
        return Err(CacheError::InvalidArchiveName);
    }
    assert(cs@.take(j as int).drop_last() =~= cs@.take(j - 1));
    assert(Seq::<char>::empty() + cs@.subrange(j as int, n as int) =~= cs@.subrange(
        j as int,
        n as int,
    ));
    let name = string_of(&cs, 0, j - 1);
    let ext = string_of(&cs, j, n);
    assert(cs@.subrange(0, j - 1) =~= cs@.take(j - 1));
    proof {
        lemma_format_literals();
    }
    let suffix: &'static str = if str_eq(ext.as_str(), "bin") {
        "bin"
    } else if str_eq(ext.as_str(), "mp3") {
        "mp3"
    } else {
        return Err(CacheError::InvalidArchiveName);
    };
    match CacheKey::from_archive_name(name.as_str(), suffix) {
        Ok(key) => Ok((key, suffix)),
        Err(e) => Err(e),
    }
}

} // verus!
