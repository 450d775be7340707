//! Hashing of data that arrives piece by piece.
use crate::config::HashConfig;
use crate::text;
use sha2::Digest;
use vstd::prelude::*;

verus! {

/// The most bytes that a hasher can take that computes its input's length in bits
/// in 64 bits.
pub const COUNTED_INPUT_MAX: u128 = 0x1fff_ffff_ffff_ffff;

/// The most bytes that a hasher can take that computes its input's length in bits
/// in 128 bits.
pub const WIDE_INPUT_MAX: u128 = 0x1fff_ffff_ffff_ffff_ffff_ffff_ffff_ffff;

/// The hexadecimal digit with the value `n`, letters in lower case.
pub open spec fn hex_digit(n: nat) -> char {
    if n < 10 {
        text::digit(n)
    } else {
        ('a' as u32 + (n - 10)) as char
    }
}

/// `data` in hexadecimal: two digits for each byte, letters in lower case.
pub open spec fn lower_hex(data: Seq<u8>) -> Seq<char> {
    Seq::new(
        2 * data.len(),
        |i: int|
            if i % 2 == 0 {
                hex_digit((data[i / 2] / 16) as nat)
            } else {
                hex_digit((data[i / 2] % 16) as nat)
            },
    )
}

// ---------------------------------------------------------------------------
// The hash functions
// ---------------------------------------------------------------------------
/// The MD5 context of the `md5` crate.
#[verifier::external_type_specification]
#[verifier::external_body]
pub struct ExMd5Context(md5::Context);

/// The bytes that an MD5 context has consumed.
pub uninterp spec fn md5_input(context: md5::Context) -> Seq<u8>;

/// The MD5 digest of `data`.
pub uninterp spec fn md5_digest(data: Seq<u8>) -> Seq<u8>;

/// `md5::Context::new`: a context that has consumed nothing.
#[verifier::external_body]
fn md5_new() -> (r: md5::Context)
    ensures
        md5_input(r) == Seq::<u8>::empty(),
{
    md5::Context::new()
}

/// `md5::Context::consume`: the context has consumed `chunk` behind what it had
/// consumed before.
#[verifier::external_body]
fn md5_consume(context: &mut md5::Context, chunk: &[u8])
    ensures
        md5_input(*final(context)) == md5_input(*old(context)) + chunk@,
{
    context.consume(chunk);
}

/// `md5::Context::compute`, printed in lower-case hexadecimal: the digest of all
/// that the context has consumed, which has 16 bytes.
#[verifier::external_body]
fn md5_hex(context: md5::Context) -> (r: String)
    ensures
        r@ == lower_hex(md5_digest(md5_input(context))),
        r@.len() == 32,
{
    format!("{:x}", context.compute())
}

/// The SHA-1 hasher of the `sha1` crate.
#[verifier::external_body]
pub struct Sha1Hasher {
    inner: sha1::Sha1,
}

/// The bytes that a SHA-1 hasher has consumed.
pub uninterp spec fn sha1_input(hasher: Sha1Hasher) -> Seq<u8>;

/// The SHA-1 digest of `data`.
pub uninterp spec fn sha1_digest(data: Seq<u8>) -> Seq<u8>;

/// `Sha1::new`: a hasher that has consumed nothing.
#[verifier::external_body]
fn sha1_new() -> (r: Sha1Hasher)
    ensures
        sha1_input(r) == Seq::<u8>::empty(),
{
    Sha1Hasher { inner: sha1::Sha1::new() }
}

/// `Sha1::update`: the hasher has consumed `chunk` behind what it had consumed
/// before. It counts the blocks it has seen in 64 bits.
#[verifier::external_body]
fn sha1_update(hasher: &mut Sha1Hasher, chunk: &[u8])
    requires
        sha1_input(*old(hasher)).len() + chunk@.len() <= COUNTED_INPUT_MAX,
    ensures
        sha1_input(*final(hasher)) == sha1_input(*old(hasher)) + chunk@,
{
    hasher.inner.update(chunk);
}

/// `Sha1::finalize`, printed in lower-case hexadecimal: the digest of all that
/// the hasher has consumed, which has 20 bytes. The length in bits is computed in
/// 64 bits.
#[verifier::external_body]
fn sha1_hex(hasher: Sha1Hasher) -> (r: String)
    requires
        sha1_input(hasher).len() <= COUNTED_INPUT_MAX,
    ensures
        r@ == lower_hex(sha1_digest(sha1_input(hasher))),
        r@.len() == 40,
{
    format!("{:x}", hasher.inner.finalize())
}

/// The SHA-256 hasher of the `sha2` crate.
#[verifier::external_body]
pub struct Sha256Hasher {
    inner: sha2::Sha256,
}

/// The bytes that a SHA-256 hasher has consumed.
pub uninterp spec fn sha256_input(hasher: Sha256Hasher) -> Seq<u8>;

/// The SHA-256 digest of `data`.
pub uninterp spec fn sha256_digest(data: Seq<u8>) -> Seq<u8>;

/// `Sha256::new`: a hasher that has consumed nothing.
#[verifier::external_body]
fn sha256_new() -> (r: Sha256Hasher)
    ensures
        sha256_input(r) == Seq::<u8>::empty(),
{
    Sha256Hasher { inner: sha2::Sha256::new() }
}

/// `Sha256::update`: the hasher has consumed `chunk` behind what it had consumed
/// before. It counts the blocks it has seen in 64 bits.
#[verifier::external_body]
fn sha256_update(hasher: &mut Sha256Hasher, chunk: &[u8])
    requires
        sha256_input(*old(hasher)).len() + chunk@.len() <= COUNTED_INPUT_MAX,
    ensures
        sha256_input(*final(hasher)) == sha256_input(*old(hasher)) + chunk@,
{
    hasher.inner.update(chunk);
}

/// `Sha256::finalize`, printed in lower-case hexadecimal: the digest of all that
/// the hasher has consumed, which has 32 bytes. The length in bits is computed in
/// 64 bits.
#[verifier::external_body]
fn sha256_hex(hasher: Sha256Hasher) -> (r: String)
    requires
        sha256_input(hasher).len() <= COUNTED_INPUT_MAX,
    ensures
        r@ == lower_hex(sha256_digest(sha256_input(hasher))),
        r@.len() == 64,
{
    format!("{:x}", hasher.inner.finalize())
}

/// The SHA-512 hasher of the `sha2` crate.
#[verifier::external_body]
pub struct Sha512Hasher {
    inner: sha2::Sha512,
}

/// The bytes that a SHA-512 hasher has consumed.
pub uninterp spec fn sha512_input(hasher: Sha512Hasher) -> Seq<u8>;

/// The SHA-512 digest of `data`.
pub uninterp spec fn sha512_digest(data: Seq<u8>) -> Seq<u8>;

/// `Sha512::new`: a hasher that has consumed nothing.
#[verifier::external_body]
fn sha512_new() -> (r: Sha512Hasher)
    ensures
        sha512_input(r) == Seq::<u8>::empty(),
{
    Sha512Hasher { inner: sha2::Sha512::new() }
}

/// `Sha512::update`: the hasher has consumed `chunk` behind what it had consumed
/// before. It counts the blocks it has seen in 128 bits.
#[verifier::external_body]
fn sha512_update(hasher: &mut Sha512Hasher, chunk: &[u8])
    requires
        sha512_input(*old(hasher)).len() + chunk@.len() <= WIDE_INPUT_MAX,
    ensures
        sha512_input(*final(hasher)) == sha512_input(*old(hasher)) + chunk@,
{
    hasher.inner.update(chunk);
}

/// `Sha512::finalize`, printed in lower-case hexadecimal: the digest of all that
/// the hasher has consumed, which has 64 bytes. The length in bits is computed in
/// 128 bits.
#[verifier::external_body]
fn sha512_hex(hasher: Sha512Hasher) -> (r: String)
    requires
        sha512_input(hasher).len() <= WIDE_INPUT_MAX,
    ensures
        r@ == lower_hex(sha512_digest(sha512_input(hasher))),
        r@.len() == 128,
{
    format!("{:x}", hasher.inner.finalize())
}

// ---------------------------------------------------------------------------
// Hashing with one algorithm
// ---------------------------------------------------------------------------
/// The algorithm of a checksum file.
#[derive(Debug, Clone, Copy, PartialEq, Eq, Structural)]
pub enum ChecksumAlgorithm {
    Md5,
    Sha1,
    Sha256,
    Sha512,
}

impl ChecksumAlgorithm {
    /// The name of the algorithm.
    pub open spec fn name(self) -> Seq<char> {
        match self {
            ChecksumAlgorithm::Md5 => "MD5"@,
            ChecksumAlgorithm::Sha1 => "SHA-1"@,
            ChecksumAlgorithm::Sha256 => "SHA-256"@,
            ChecksumAlgorithm::Sha512 => "SHA-512"@,
        }
    }

    /// The digest of `data`.
    pub open spec fn digest(self, data: Seq<u8>) -> Seq<u8> {
        match self {
            ChecksumAlgorithm::Md5 => md5_digest(data),
            ChecksumAlgorithm::Sha1 => sha1_digest(data),
            ChecksumAlgorithm::Sha256 => sha256_digest(data),
            ChecksumAlgorithm::Sha512 => sha512_digest(data),
        }
    }

    /// The number of characters of a digest in hexadecimal.
    pub open spec fn hex_len(self) -> nat {
        match self {
            ChecksumAlgorithm::Md5 => 32,
            ChecksumAlgorithm::Sha1 => 40,
            ChecksumAlgorithm::Sha256 => 64,
            ChecksumAlgorithm::Sha512 => 128,
        }
    }

    /// The most bytes that the algorithm's hasher can take.
    pub open spec fn input_max(self) -> u128 {
        match self {
            ChecksumAlgorithm::Sha1 | ChecksumAlgorithm::Sha256 => COUNTED_INPUT_MAX,
            ChecksumAlgorithm::Md5 | ChecksumAlgorithm::Sha512 => WIDE_INPUT_MAX,
        }
    }

    /// The name of the algorithm.
    pub fn as_str(&self) -> (r: &'static str)
        ensures
            r@ == self.name(),
    {
        match self {
            ChecksumAlgorithm::Md5 => "MD5",
            ChecksumAlgorithm::Sha1 => "SHA-1",
            ChecksumAlgorithm::Sha256 => "SHA-256",
            ChecksumAlgorithm::Sha512 => "SHA-512",
        }
    }
}

enum Engine {
    Md5(md5::Context),
    Sha1(Sha1Hasher),
    Sha256(Sha256Hasher),
    Sha512(Sha512Hasher),
}

/// A hash in the making, by one algorithm.
pub struct AlgorithmHasher {
    engine: Engine,
    total: u128,
}

impl AlgorithmHasher {
    /// The algorithm.
    pub closed spec fn algorithm(self) -> ChecksumAlgorithm {
        match self.engine {
            Engine::Md5(_) => ChecksumAlgorithm::Md5,
            Engine::Sha1(_) => ChecksumAlgorithm::Sha1,
            Engine::Sha256(_) => ChecksumAlgorithm::Sha256,
            Engine::Sha512(_) => ChecksumAlgorithm::Sha512,
        }
    }

    /// The data taken so far.
    pub closed spec fn content(self) -> Seq<u8> {
        match self.engine {
            Engine::Md5(context) => md5_input(context),
            Engine::Sha1(hasher) => sha1_input(hasher),
            Engine::Sha256(hasher) => sha256_input(hasher),
            Engine::Sha512(hasher) => sha512_input(hasher),
        }
    }

    /// The data taken is within the algorithm's limit, and its length is known.
    pub closed spec fn wf(self) -> bool {
        &&& self.total == self.content().len()
        &&& self.total <= self.algorithm().input_max()
    }

    /// `n` more bytes keep within the algorithm's limit.
    pub open spec fn room_for(self, n: nat) -> bool {
        self.content().len() + n <= self.algorithm().input_max()
    }

    /// A hash of no data yet.
    pub fn new(algorithm: ChecksumAlgorithm) -> (r: AlgorithmHasher)
        ensures
            r.wf(),
            r.algorithm() == algorithm,
            r.content() == Seq::<u8>::empty(),
    {
        let engine = match algorithm {
            ChecksumAlgorithm::Md5 => Engine::Md5(md5_new()),
            ChecksumAlgorithm::Sha1 => Engine::Sha1(sha1_new()),
            ChecksumAlgorithm::Sha256 => Engine::Sha256(sha256_new()),
            ChecksumAlgorithm::Sha512 => Engine::Sha512(sha512_new()),
        };
        AlgorithmHasher { engine, total: 0 }
    }

    /// Whether `n` more bytes can be taken.
    pub fn has_room(&self, n: usize) -> (r: bool)
        requires
            self.wf(),
        ensures
            r == self.room_for(n as nat),
    {
        let max: u128 = match &self.engine {
            Engine::Sha1(_) | Engine::Sha256(_) => COUNTED_INPUT_MAX,
            Engine::Md5(_) | Engine::Sha512(_) => WIDE_INPUT_MAX,
        };
        self.total + n as u128 <= max
    }

    /// Takes the next piece of the data.
    pub fn update(&mut self, chunk: &[u8])
        requires
            old(self).wf(),
            old(self).room_for(chunk@.len()),
        ensures
            final(self).wf(),
            final(self).algorithm() == old(self).algorithm(),
            final(self).content() == old(self).content() + chunk@,
    {
        match &mut self.engine {
            Engine::Md5(context) => md5_consume(context, chunk),
            Engine::Sha1(hasher) => sha1_update(hasher, chunk),
            Engine::Sha256(hasher) => sha256_update(hasher, chunk),
            Engine::Sha512(hasher) => sha512_update(hasher, chunk),
        }
        self.total = self.total + chunk.len() as u128;
    }

    /// The hash of all the data taken, in lower-case hexadecimal.
    pub fn finish(self) -> (r: String)
        requires
            self.wf(),
        ensures
            r@ == lower_hex(self.algorithm().digest(self.content())),
            r@.len() == self.algorithm().hex_len(),
            r@ == match self.algorithm() {
                ChecksumAlgorithm::Md5 => lower_hex(md5_digest(self.content())),
                ChecksumAlgorithm::Sha1 => lower_hex(sha1_digest(self.content())),
                ChecksumAlgorithm::Sha256 => lower_hex(sha256_digest(self.content())),
                ChecksumAlgorithm::Sha512 => lower_hex(sha512_digest(self.content())),
            },
    {
        match self.engine {
            Engine::Md5(context) => md5_hex(context),
            Engine::Sha1(hasher) => sha1_hex(hasher),
            Engine::Sha256(hasher) => sha256_hex(hasher),
            Engine::Sha512(hasher) => sha512_hex(hasher),
        }
    }
}

// ---------------------------------------------------------------------------
// Hashing as configured
// ---------------------------------------------------------------------------
/// The hashes of one file, each in lower-case hexadecimal.
#[derive(Debug, Clone)]
pub struct Hashes {
    pub md5: Option<String>,
    pub sha256: Option<String>,
    pub sha512: Option<String>,
}

/// The hashes of one file as texts.
#[verifier::ext_equal]
pub struct HashTexts {
    pub md5: Option<Seq<char>>,
    pub sha256: Option<Seq<char>>,
    pub sha512: Option<Seq<char>>,
}

/// The text that `t` holds, if any.
pub open spec fn optional_text(t: Option<String>) -> Option<Seq<char>> {
    match t {
        Some(t) => Some(t@),
        None => None,
    }
}

impl View for Hashes {
    type V = HashTexts;

    open spec fn view(&self) -> HashTexts {
        HashTexts {
            md5: optional_text(self.md5),
            sha256: optional_text(self.sha256),
            sha512: optional_text(self.sha512),
        }
    }
}

/// The hash of `data` by `algorithm`, if it is `wanted`.
pub open spec fn wanted_hash(
    wanted: bool,
    algorithm: ChecksumAlgorithm,
    data: Seq<u8>,
) -> Option<Seq<char>> {
    if wanted {
        Some(lower_hex(algorithm.digest(data)))
    } else {
        None
    }
}

/// The hashes of a file that holds `data`: those that are configured, and no others.
pub open spec fn hashes_of(cfg: HashConfig, data: Seq<u8>) -> HashTexts {
    HashTexts {
        md5: wanted_hash(cfg.md5, ChecksumAlgorithm::Md5, data),
        sha256: wanted_hash(cfg.sha256, ChecksumAlgorithm::Sha256, data),
        sha512: wanted_hash(cfg.sha512, ChecksumAlgorithm::Sha512, data),
    }
}

/// The configured hashes of one file in the making.
pub struct FileHasher {
    md5: Option<md5::Context>,
    sha256: Option<Sha256Hasher>,
    sha512: Option<Sha512Hasher>,
    total: u128,
    taken: Ghost<Seq<u8>>,
}

impl FileHasher {
    /// The hashes that are computed.
    pub closed spec fn config(self) -> HashConfig {
        HashConfig {
            md5: self.md5 is Some,
            sha256: self.sha256 is Some,
            sha512: self.sha512 is Some,
        }
    }

    /// The data taken so far.
    pub closed spec fn content(self) -> Seq<u8> {
        self.taken@
    }

    /// The most bytes that the hashers of a configuration can take.
    pub open spec fn input_max(cfg: HashConfig) -> u128 {
        if cfg.sha256 {
            COUNTED_INPUT_MAX
        } else {
            WIDE_INPUT_MAX
        }
    }

    /// Every hasher has taken the same data, within the limit.
    pub closed spec fn wf(self) -> bool {
        &&& self.md5 matches Some(context) ==> md5_input(context) == self.taken@
        &&& self.sha256 matches Some(hasher) ==> sha256_input(hasher) == self.taken@
        &&& self.sha512 matches Some(hasher) ==> sha512_input(hasher) == self.taken@
        &&& self.total == self.taken@.len()
        &&& self.total <= Self::input_max(self.config())
    }

    /// `n` more bytes keep within the limit.
    pub open spec fn room_for(self, n: nat) -> bool {
        self.content().len() + n <= Self::input_max(self.config())
    }

    /// The hashes of no data yet.
    pub fn new(cfg: &HashConfig) -> (r: FileHasher)
        ensures
            r.wf(),
            r.config() == *cfg,
            r.content() == Seq::<u8>::empty(),
    {
        FileHasher {
            md5: if cfg.md5 {
                Some(md5_new())
            } else {
                None
            },
            sha256: if cfg.sha256 {
                Some(sha256_new())
            } else {
                None
            },
            sha512: if cfg.sha512 {
                Some(sha512_new())
            } else {
                None
            },
            total: 0,
            taken: Ghost(Seq::empty()),
        }
    }

    /// Whether `n` more bytes can be taken.
    pub fn has_room(&self, n: usize) -> (r: bool)
        requires
            self.wf(),
        ensures
            r == self.room_for(n as nat),
    {
        let max: u128 = if self.sha256.is_some() {
            COUNTED_INPUT_MAX
        } else {
            WIDE_INPUT_MAX
        };
        self.total + n as u128 <= max
    }

    /// Takes the next piece of the file.
    pub fn update(&mut self, chunk: &[u8])
        requires
            old(self).wf(),
            old(self).room_for(chunk@.len()),
        ensures
            final(self).wf(),
            final(self).config() == old(self).config(),
            final(self).content() == old(self).content() + chunk@,
    {
        if let Some(context) = &mut self.md5 {
            md5_consume(context, chunk);
        }
        if let Some(hasher) = &mut self.sha256 {
            sha256_update(hasher, chunk);
        }
        if let Some(hasher) = &mut self.sha512 {
            sha512_update(hasher, chunk);
        }
        self.total = self.total + chunk.len() as u128;
        self.taken = Ghost(self.taken@ + chunk@);
    }

    /// The configured hashes of all the data taken.
    pub fn finish(self) -> (r: Hashes)
        requires
            self.wf(),
        ensures
            r@ == hashes_of(self.config(), self.content()),
            r.md5 is Some <==> self.config().md5,
            r.sha256 is Some <==> self.config().sha256,
            r.sha512 is Some <==> self.config().sha512,
            r.md5 matches Some(h) ==> h@ == lower_hex(md5_digest(self.content())),
            r.sha256 matches Some(h) ==> h@ == lower_hex(sha256_digest(self.content())),
            r.sha512 matches Some(h) ==> h@ == lower_hex(sha512_digest(self.content())),
            r.md5 matches Some(h) ==> h@.len() == 32,
            r.sha256 matches Some(h) ==> h@.len() == 64,
            r.sha512 matches Some(h) ==> h@.len() == 128,
    {
        Hashes {
            md5: match self.md5 {
                Some(context) => Some(md5_hex(context)),
                None => None,
            },
            sha256: match self.sha256 {
                Some(hasher) => Some(sha256_hex(hasher)),
                None => None,
            },
            sha512: match self.sha512 {
                Some(hasher) => Some(sha512_hex(hasher)),
                None => None,
            },
        }
    }
}

// ---------------------------------------------------------------------------
// Laws
// ---------------------------------------------------------------------------
/// The data taken by a hasher that starts with `content` and is given the pieces
/// one after the other.
pub open spec fn taken_after(content: Seq<u8>, pieces: Seq<Seq<u8>>) -> Seq<u8>
    decreases pieces.len(),
{
    if pieces.len() == 0 {
        content
    } else {
        taken_after(content + pieces[0], pieces.drop_first())
    }
}

/// However a file is read, its hashes are those of the whole: they depend on the
/// pieces only through what the pieces make together.
pub proof fn law_hashes_do_not_depend_on_pieces(
    cfg: HashConfig,
    algorithm: ChecksumAlgorithm,
    pieces: Seq<Seq<u8>>,
)
    ensures
        taken_after(Seq::empty(), pieces) == pieces.flatten(),
        hashes_of(cfg, taken_after(Seq::empty(), pieces)) == hashes_of(cfg, pieces.flatten()),
        algorithm.digest(taken_after(Seq::empty(), pieces)) == algorithm.digest(pieces.flatten()),
{
    lemma_taken_after(Seq::empty(), pieces);
    assert(Seq::<u8>::empty() + pieces.flatten() =~= pieces.flatten());
}

proof fn lemma_taken_after(content: Seq<u8>, pieces: Seq<Seq<u8>>)
    ensures
        taken_after(content, pieces) == content + pieces.flatten(),
    decreases pieces.len(),
{
    if pieces.len() == 0 {
        assert(content + pieces.flatten() =~= content);
    } else {
        lemma_taken_after(content + pieces[0], pieces.drop_first());
        assert(content + pieces[0] + pieces.drop_first().flatten() =~= content + (pieces[0]
            + pieces.drop_first().flatten()));
    }
}

/// Hexadecimal text is made of the digits `0` to `9` and `a` to `f`, two for each
/// byte, and different data has different text.
pub proof fn law_hex_text(a: Seq<u8>, b: Seq<u8>)
    ensures
        lower_hex(a).len() == 2 * a.len(),
        forall|i: int|
            0 <= i < lower_hex(a).len() ==> ('0' <= #[trigger] lower_hex(a)[i] <= '9' || 'a'
                <= lower_hex(a)[i] <= 'f'),
        lower_hex(a) == lower_hex(b) <==> a == b,
{
    if lower_hex(a) == lower_hex(b) {
        assert(lower_hex(a).len() == lower_hex(b).len());
        assert forall|k: int| 0 <= k < a.len() implies a[k] == b[k] by {
            assert(lower_hex(a)[2 * k] == hex_digit((a[k] / 16) as nat));
            assert(lower_hex(b)[2 * k] == hex_digit((b[k] / 16) as nat));
            assert(lower_hex(a)[2 * k + 1] == hex_digit((a[k] % 16) as nat));
            assert(lower_hex(b)[2 * k + 1] == hex_digit((b[k] % 16) as nat));
        }
        assert(a =~= b);
    }
}

/// The digest of an algorithm is that of its outside function, of the data and of
/// nothing else.
pub proof fn law_digest_is_that_of_the_data(data: Seq<u8>)
    ensures
        ChecksumAlgorithm::Md5.digest(data) == md5_digest(data),
        ChecksumAlgorithm::Sha1.digest(data) == sha1_digest(data),
        ChecksumAlgorithm::Sha256.digest(data) == sha256_digest(data),
        ChecksumAlgorithm::Sha512.digest(data) == sha512_digest(data),
{
}

/// A file has each configured hash, that of all its data, and no other.
pub proof fn law_hashes_of_a_file(cfg: HashConfig, data: Seq<u8>)
    ensures
        cfg.md5 ==> hashes_of(cfg, data).md5 == Some(lower_hex(md5_digest(data))),
        cfg.sha256 ==> hashes_of(cfg, data).sha256 == Some(lower_hex(sha256_digest(data))),
        cfg.sha512 ==> hashes_of(cfg, data).sha512 == Some(lower_hex(sha512_digest(data))),
        !cfg.md5 ==> hashes_of(cfg, data).md5 is None,
        !cfg.sha256 ==> hashes_of(cfg, data).sha256 is None,
        !cfg.sha512 ==> hashes_of(cfg, data).sha512 is None,
{
}

/// The texts of hashes are what the strings hold, each at its own place.
pub proof fn law_hash_texts(hashes: Hashes)
    ensures
        hashes@.md5 == (match hashes.md5 {
            Some(h) => Some(h@),
            None => None,
        }),
        hashes@.sha256 == (match hashes.sha256 {
            Some(h) => Some(h@),
            None => None,
        }),
        hashes@.sha512 == (match hashes.sha512 {
            Some(h) => Some(h@),
            None => None,
        }),
{
}

/// The value of a hexadecimal digit.
pub open spec fn hex_value(c: char) -> int {
    if 'a' <= c <= 'f' {
        c as int - 'a' as int + 10
    } else {
        c as int - '0' as int
    }
}

/// The bytes can be read back from their hexadecimal text, two digits for each, the
/// higher one first.
pub proof fn law_hex_reads_back(data: Seq<u8>, k: int)
    requires
        0 <= k < data.len(),
    ensures
        lower_hex(data).len() == 2 * data.len(),
        hex_value(lower_hex(data)[2 * k]) * 16 + hex_value(lower_hex(data)[2 * k + 1]) == data[k],
{
    let b = data[k];
    assert((2 * k) / 2 == k && (2 * k + 1) / 2 == k);
    assert(lower_hex(data)[2 * k] == hex_digit((b / 16) as nat));
    assert(lower_hex(data)[2 * k + 1] == hex_digit((b % 16) as nat));
    assert(hex_value(hex_digit((b / 16) as nat)) == b / 16);
    assert(hex_value(hex_digit((b % 16) as nat)) == b % 16);
}

/// Every hasher takes files of up to 2^61 - 1 bytes.
pub proof fn law_room(hasher: AlgorithmHasher, file_hasher: FileHasher, n: nat)
    ensures
        hasher.content().len() + n <= 0x1fff_ffff_ffff_ffff ==> hasher.room_for(n),
        file_hasher.content().len() + n <= 0x1fff_ffff_ffff_ffff ==> file_hasher.room_for(n),
{
}

} // verus!
