//! Tagged digests (`AnyHash`) and hash pre-images (`PreImage`) with their compact and
//! human-readable encodings.

use vstd::prelude::*;
use crate::bytes::{append_bytes, bytes_eq, copy_range};
use vstd::string::StringSliceAdditionalSpecFns;

verus! {

/// Compact wire tag of a Blake2b-256 digest.
pub const TAG_BLAKE2B: u8 = 1;

/// Compact wire tag of a SHA-256 digest.
pub const TAG_SHA256: u8 = 3;

/// Compact wire tag of a SHA-512 digest.
pub const TAG_SHA512: u8 = 4;

/// Digest size, in bytes, that goes with a compact tag; 0 for an unknown tag.
pub open spec fn digest_size(tag: u8) -> nat {
    if tag == TAG_BLAKE2B || tag == TAG_SHA256 {
        32
    } else if tag == TAG_SHA512 {
        64
    } else {
        0
    }
}

pub open spec fn is_hash_tag(tag: u8) -> bool {
    tag == TAG_BLAKE2B || tag == TAG_SHA256 || tag == TAG_SHA512
}

/// ASCII of "blake2b".
pub open spec fn name_blake2b() -> Seq<u8> {
    seq![98u8, 108, 97, 107, 101, 50, 98]
}

/// ASCII of "sha256".
pub open spec fn name_sha256() -> Seq<u8> {
    seq![115u8, 104, 97, 50, 53, 54]
}

/// ASCII of "sha512".
pub open spec fn name_sha512() -> Seq<u8> {
    seq![115u8, 104, 97, 53, 49, 50]
}

/// Human-readable algorithm name that goes with a compact tag.
pub open spec fn algorithm_name(tag: u8) -> Seq<u8> {
    if tag == TAG_BLAKE2B {
        name_blake2b()
    } else if tag == TAG_SHA256 {
        name_sha256()
    } else {
        name_sha512()
    }
}

/// Lowercase ASCII hex digit of a nibble.
pub open spec fn hex_digit(v: int) -> u8 {
    if v < 10 {
        (48 + v) as u8
    } else {
        (87 + v) as u8
    }
}

/// Lowercase hex spelling of a byte string: two digits per byte, high nibble first.
pub open spec fn hex_of(b: Seq<u8>) -> Seq<u8>
    decreases b.len(),
{
    if b.len() == 0 {
        Seq::empty()
    } else {
        seq![hex_digit(b[0] as int / 16), hex_digit(b[0] as int % 16)] + hex_of(b.drop_first())
    }
}

pub proof fn lemma_hex_len(b: Seq<u8>)
    ensures
        hex_of(b).len() == 2 * b.len(),
    decreases b.len(),
{
    if b.len() > 0 {
        lemma_hex_len(b.drop_first());
    }
}

/// Value of an ASCII hex digit of either case, or -1.
pub open spec fn hex_value(c: u8) -> int {
    if 48 <= c <= 57 {
        c - 48
    } else if 97 <= c <= 102 {
        c - 87
    } else if 65 <= c <= 70 {
        c - 55
    } else {
        -1
    }
}

/// The bytes a hex string spells, digits of either case, two per byte; `None` for an odd
/// length or a character that is no hex digit.
pub open spec fn hex_decoded(s: Seq<u8>) -> Option<Seq<u8>>
    decreases s.len(),
{
    if s.len() == 0 {
        Some(Seq::empty())
    } else if s.len() == 1 || hex_value(s[0]) < 0 || hex_value(s[1]) < 0 {
        None
    } else {
        match hex_decoded(s.subrange(2, s.len() as int)) {
            None => None,
            Some(rest) => Some(seq![(hex_value(s[0]) * 16 + hex_value(s[1])) as u8] + rest),
        }
    }
}

pub open spec fn prepend(prefix: Seq<u8>, o: Option<Seq<u8>>) -> Option<Seq<u8>> {
    match o {
        Some(x) => Some(prefix + x),
        None => None,
    }
}

/// A hex spelling decodes to the bytes it spells.
pub proof fn lemma_hex_round_trip(b: Seq<u8>)
    ensures
        hex_decoded(hex_of(b)) == Some(b),
    decreases b.len(),
{
    if b.len() > 0 {
        let h = hex_of(b);
        lemma_hex_len(b);
        assert(h.subrange(2, h.len() as int) =~= hex_of(b.drop_first()));
        lemma_hex_round_trip(b.drop_first());
        let hi = b[0] as int / 16;
        let lo = b[0] as int % 16;
        assert(hex_value(h[0]) == hi);
        assert(hex_value(h[1]) == lo);
        assert(hi * 16 + lo == b[0] as int);
        assert(seq![b[0]] + b.drop_first() =~= b);
    }
}

fn hex_char(v: u8) -> (r: u8)
    requires
        v < 16,
    ensures
        r == hex_digit(v as int),
{
    if v < 10 {
        48 + v
    } else {
        87 + v
    }
}

fn hex_nibble(c: u8) -> (r: Option<u8>)
    ensures
        match r {
            Some(v) => v < 16 && hex_value(c) == v as int,
            None => hex_value(c) < 0,
        },
{
    if 48 <= c && c <= 57 {
        Some(c - 48)
    } else if 97 <= c && c <= 102 {
        Some(c - 87)
    } else if 65 <= c && c <= 70 {
        Some(c - 55)
    } else {
        None
    }
}

/// Lowercase hex spelling of `b`.
pub fn hex_encode(b: &[u8]) -> (r: Vec<u8>)
    ensures
        r@ == hex_of(b@),
{
    let mut r: Vec<u8> = Vec::new();
    let mut i: usize = 0;
    assert(b@.subrange(0, b@.len() as int) =~= b@);
    while i < b.len()
        invariant
            i <= b@.len(),
            hex_of(b@) == r@ + hex_of(b@.subrange(i as int, b@.len() as int)),
        decreases b@.len() - i,
    {
        let ghost tail = b@.subrange(i as int, b@.len() as int);
        assert(tail.drop_first() =~= b@.subrange(i + 1, b@.len() as int));
        let hi = hex_char(b[i] / 16);
        let lo = hex_char(b[i] % 16);
        let ghost before = r@;
        r.push(hi);
        r.push(lo);
        assert(hex_of(tail) == seq![hi, lo] + hex_of(tail.drop_first()));
        assert(before + hex_of(tail) =~= r@ + hex_of(b@.subrange(i + 1, b@.len() as int)));
        i = i + 1;
    }
    assert(b@.subrange(b@.len() as int, b@.len() as int) =~= Seq::<u8>::empty());
    assert(r@ + Seq::<u8>::empty() =~= r@);
    r
}

/// The bytes the hex string `s` spells, digits of either case.
pub fn hex_decode(s: &[u8]) -> (r: Option<Vec<u8>>)
    ensures
        match hex_decoded(s@) {
            Some(b) => r matches Some(v) && v@ == b,
            None => r is None,
        },
{
    let mut r: Vec<u8> = Vec::new();
    let mut i: usize = 0;
    assert(s@.subrange(0, s@.len() as int) =~= s@);
    assert(prepend(Seq::empty(), hex_decoded(s@)) =~= hex_decoded(s@)) by {
        if let Some(x) = hex_decoded(s@) {
            assert(Seq::<u8>::empty() + x =~= x);
        }
    }
    while i < s.len()
        invariant
            i <= s@.len(),
            hex_decoded(s@) == prepend(r@, hex_decoded(s@.subrange(i as int, s@.len() as int))),
        decreases s@.len() - i,
    {
        let ghost tail = s@.subrange(i as int, s@.len() as int);
        if s.len() - i < 2 {
            return None;
        }
        let hi = match hex_nibble(s[i]) {
            Some(v) => v,
            None => return None,
        };
        let lo = match hex_nibble(s[i + 1]) {
            Some(v) => v,
            None => return None,
        };
        let byte: u8 = hi * 16 + lo;
        let ghost before = r@;
        assert(tail.subrange(2, tail.len() as int) =~= s@.subrange(i + 2, s@.len() as int));
        r.push(byte);
        proof {
            let rest = hex_decoded(s@.subrange(i + 2, s@.len() as int));
            if let Some(x) = rest {
                assert(before + (seq![byte] + x) =~= r@ + x);
            }
        }
        i = i + 2;
    }
    assert(s@.subrange(s@.len() as int, s@.len() as int) =~= Seq::<u8>::empty());
    assert(r@ + Seq::<u8>::empty() =~= r@);
    Some(r)
}

/// The compact decoding of a digest at the front of `b`: its tag and bytes, and the number of
/// bytes it takes.
pub open spec fn spec_decode_any_hash(b: Seq<u8>) -> Option<((u8, Seq<u8>), nat)> {
    if b.len() > 0 && is_hash_tag(b[0]) && b.len() >= 1 + digest_size(b[0]) {
        Some(((b[0], b.subrange(1, 1 + digest_size(b[0]) as int)), 1 + digest_size(b[0])))
    } else {
        None
    }
}

/// The compact decoding of a pre-image at the front of `b`: its bytes and the number of bytes it
/// takes.
pub open spec fn spec_decode_pre_image(b: Seq<u8>) -> Option<(Seq<u8>, nat)> {
    if b.len() > 0 && (b[0] == 32 || b[0] == 64) && b.len() >= 1 + b[0] {
        Some((b.subrange(1, 1 + b[0] as int), 1 + b[0] as nat))
    } else {
        None
    }
}

/// The compact tag an algorithm name stands for.
pub open spec fn name_tag(algorithm: Seq<u8>) -> Option<u8> {
    if algorithm == name_blake2b() {
        Some(TAG_BLAKE2B)
    } else if algorithm == name_sha256() {
        Some(TAG_SHA256)
    } else if algorithm == name_sha512() {
        Some(TAG_SHA512)
    } else {
        None
    }
}

/// The digest the human-readable pair (`algorithm`, `hex`) spells: a known algorithm name and
/// a hex string of that algorithm's digest size.
pub open spec fn spec_decode_human_any_hash(algorithm: Seq<u8>, hex: Seq<u8>) -> Option<(u8, Seq<u8>)> {
    match (name_tag(algorithm), hex_decoded(hex)) {
        (Some(tag), Some(b)) => if b.len() == digest_size(tag) {
            Some((tag, b))
        } else {
            None
        },
        _ => None,
    }
}

/// A digest tagged with the algorithm that produced it.
#[derive(Debug, Clone)]
pub enum AnyHash {
    Blake2b(Vec<u8>),
    Sha256(Vec<u8>),
    Sha512(Vec<u8>),
}

impl View for AnyHash {
    /// The compact tag and the digest bytes.
    type V = (u8, Seq<u8>);

    open spec fn view(&self) -> (u8, Seq<u8>) {
        match self {
            AnyHash::Blake2b(h) => (TAG_BLAKE2B, h@),
            AnyHash::Sha256(h) => (TAG_SHA256, h@),
            AnyHash::Sha512(h) => (TAG_SHA512, h@),
        }
    }
}

impl PartialEq for AnyHash {
    fn eq(&self, other: &AnyHash) -> (r: bool) {
        self.tag() == other.tag() && bytes_eq(self.as_bytes(), other.as_bytes())
    }
}

impl vstd::std_specs::cmp::PartialEqSpecImpl for AnyHash {
    open spec fn obeys_eq_spec() -> bool {
        true
    }

    open spec fn eq_spec(&self, other: &AnyHash) -> bool {
        self@ == other@
    }
}

impl Eq for AnyHash {}

impl Default for AnyHash {
    /// The all-zero Blake2b digest.
    fn default() -> (r: AnyHash)
        ensures
            r@ == (TAG_BLAKE2B, Seq::new(32, |i: int| 0u8)),
    {
        let r = AnyHash::Blake2b(vec![0u8; 32]);
        assert(r@.1 =~= Seq::new(32, |i: int| 0u8));
        r
    }
}

impl AnyHash {
    /// The digest has the size its algorithm produces.
    pub open spec fn wf(&self) -> bool {
        self@.1.len() == digest_size(self@.0)
    }

    /// Compact encoding: the tag byte followed by the raw digest.
    pub open spec fn spec_encode(&self) -> Seq<u8> {
        seq![self@.0] + self@.1
    }

    pub fn tag(&self) -> (r: u8)
        ensures
            r == self@.0,
            is_hash_tag(r),
    {
        match self {
            AnyHash::Blake2b(_) => TAG_BLAKE2B,
            AnyHash::Sha256(_) => TAG_SHA256,
            AnyHash::Sha512(_) => TAG_SHA512,
        }
    }

    pub fn as_bytes(&self) -> (r: &[u8])
        ensures
            r@ == self@.1,
    {
        match self {
            AnyHash::Blake2b(hash) => hash.as_slice(),
            AnyHash::Sha256(hash) => hash.as_slice(),
            AnyHash::Sha512(hash) => hash.as_slice(),
        }
    }

    /// Builds the digest of algorithm `tag` from its bytes.
    pub fn from_parts(tag: u8, bytes: Vec<u8>) -> (r: AnyHash)
        requires
            is_hash_tag(tag),
        ensures
            r@ == (tag, bytes@),
    {
        if tag == TAG_BLAKE2B {
            AnyHash::Blake2b(bytes)
        } else if tag == TAG_SHA256 {
            AnyHash::Sha256(bytes)
        } else {
            AnyHash::Sha512(bytes)
        }
    }

    /// Compact encoding.
    pub fn encode(&self) -> (r: Vec<u8>)
        ensures
            r@ == self.spec_encode(),
    {
        let mut r: Vec<u8> = Vec::new();
        r.push(self.tag());
        append_bytes(&mut r, self.as_bytes());
        r
    }

    /// Decodes a compact encoding from the front of `bytes`, returning the digest and the
    /// number of bytes it took. Fails on an unknown tag or when too few bytes follow it.
    pub fn decode(bytes: &[u8]) -> (r: Option<(AnyHash, usize)>)
        ensures
            match spec_decode_any_hash(bytes@) {
                Some((v, n)) => r matches Some((h, m)) && h@ == v && m == n && h.wf(),
                None => r is None,
            },
    {
        if bytes.len() == 0 {
            return None;
        }
        let tag = bytes[0];
        let size: usize = if tag == TAG_BLAKE2B || tag == TAG_SHA256 {
            32
        } else if tag == TAG_SHA512 {
            64
        } else {
            return None;
        };
        if bytes.len() - 1 < size {
            return None;
        }
        let digest = copy_range(bytes, 1, 1 + size);
        Some((AnyHash::from_parts(tag, digest), 1 + size))
    }

    /// Human-readable encoding: the algorithm name and the lowercase hex digest.
    pub fn encode_human(&self) -> (r: (Vec<u8>, Vec<u8>))
        ensures
            r.0@ == algorithm_name(self@.0),
            r.1@ == hex_of(self@.1),
    {
        let name: Vec<u8> = match self {
            AnyHash::Blake2b(_) => vec![98u8, 108, 97, 107, 101, 50, 98],
            AnyHash::Sha256(_) => vec![115u8, 104, 97, 50, 53, 54],
            AnyHash::Sha512(_) => vec![115u8, 104, 97, 53, 49, 50],
        };
        assert(name@ =~= algorithm_name(self@.0));
        (name, hex_encode(self.as_bytes()))
    }

    /// Decodes the human-readable encoding. The algorithm must be one of the three names and
    /// the hex string (digits of either case) must spell a digest of that algorithm's size.
    pub fn decode_human(algorithm: &[u8], hash: &[u8]) -> (r: Option<AnyHash>)
        ensures
            match spec_decode_human_any_hash(algorithm@, hash@) {
                Some(v) => r matches Some(h) && h@ == v && h.wf(),
                None => r is None,
            },
    {
        let n_blake2b: Vec<u8> = vec![98u8, 108, 97, 107, 101, 50, 98];
        let n_sha256: Vec<u8> = vec![115u8, 104, 97, 50, 53, 54];
        let n_sha512: Vec<u8> = vec![115u8, 104, 97, 53, 49, 50];
        assert(n_blake2b@ =~= name_blake2b());
        assert(n_sha256@ =~= name_sha256());
        assert(n_sha512@ =~= name_sha512());
        let tag: u8 = if bytes_eq(algorithm, n_blake2b.as_slice()) {
            TAG_BLAKE2B
        } else if bytes_eq(algorithm, n_sha256.as_slice()) {
            TAG_SHA256
        } else if bytes_eq(algorithm, n_sha512.as_slice()) {
            TAG_SHA512
        } else {
            return None;
        };
        let size: usize = if tag == TAG_SHA512 {
            64
        } else {
            32
        };
        match hex_decode(hash) {
            Some(digest) => {
                if digest.len() != size {
                    return None;
                }
                Some(AnyHash::from_parts(tag, digest))
            },
            None => None,
        }
    }
}

/// A hash pre-image of 32 or 64 bytes.
#[derive(Debug, Clone)]
pub enum PreImage {
    PreImage32(Vec<u8>),
    PreImage64(Vec<u8>),
}

impl View for PreImage {
    type V = Seq<u8>;

    open spec fn view(&self) -> Seq<u8> {
        match self {
            PreImage::PreImage32(h) => h@,
            PreImage::PreImage64(h) => h@,
        }
    }
}

impl PartialEq for PreImage {
    fn eq(&self, other: &PreImage) -> (r: bool) {
        self.tag() == other.tag() && bytes_eq(self.as_bytes(), other.as_bytes())
    }
}

impl vstd::std_specs::cmp::PartialEqSpecImpl for PreImage {
    open spec fn obeys_eq_spec() -> bool {
        true
    }

    open spec fn eq_spec(&self, other: &PreImage) -> bool {
        self.spec_tag() == other.spec_tag() && self@ == other@
    }
}

impl Eq for PreImage {}

impl Default for PreImage {
    /// The all-zero 32-byte pre-image.
    fn default() -> (r: PreImage)
        ensures
            r.wf(),
            r@ == Seq::new(32, |i: int| 0u8),
    {
        let r = PreImage::PreImage32(vec![0u8; 32]);
        assert(r@ =~= Seq::new(32, |i: int| 0u8));
        r
    }
}

impl PreImage {
    /// Compact tag of the variant: its size in bytes.
    pub open spec fn spec_tag(&self) -> u8 {
        match self {
            PreImage::PreImage32(_) => 32,
            PreImage::PreImage64(_) => 64,
        }
    }

    /// The bytes have the size the variant names.
    pub open spec fn wf(&self) -> bool {
        self@.len() == self.spec_tag() as nat
    }

    /// Compact encoding: the size byte followed by the raw bytes.
    pub open spec fn spec_encode(&self) -> Seq<u8> {
        seq![self.spec_tag()] + self@
    }

    pub fn tag(&self) -> (r: u8)
        ensures
            r == self.spec_tag(),
    {
        match self {
            PreImage::PreImage32(_) => 32,
            PreImage::PreImage64(_) => 64,
        }
    }

    pub fn as_bytes(&self) -> (r: &[u8])
        ensures
            r@ == self@,
    {
        match self {
            PreImage::PreImage32(hash) => hash.as_slice(),
            PreImage::PreImage64(hash) => hash.as_slice(),
        }
    }

    /// The pre-image variant that holds `bytes`.
    pub fn from_bytes(bytes: Vec<u8>) -> (r: PreImage)
        requires
            bytes@.len() == 32 || bytes@.len() == 64,
        ensures
            r.wf(),
            r@ == bytes@,
    {
        if bytes.len() == 32 {
            PreImage::PreImage32(bytes)
        } else {
            PreImage::PreImage64(bytes)
        }
    }

    /// Compact encoding.
    pub fn encode(&self) -> (r: Vec<u8>)
        ensures
            r@ == self.spec_encode(),
    {
        let mut r: Vec<u8> = Vec::new();
        r.push(self.tag());
        append_bytes(&mut r, self.as_bytes());
        r
    }

    /// Decodes a compact encoding from the front of `bytes`, returning the pre-image and the
    /// number of bytes it took.
    pub fn decode(bytes: &[u8]) -> (r: Option<(PreImage, usize)>)
        ensures
            match spec_decode_pre_image(bytes@) {
                Some((v, n)) => r matches Some((p, m)) && p@ == v && m == n && p.wf(),
                None => r is None,
            },
    {
        if bytes.len() == 0 {
            return None;
        }
        let size = bytes[0];
        if size != 32 && size != 64 {
            return None;
        }
        if bytes.len() - 1 < size as usize {
            return None;
        }
        let raw = copy_range(bytes, 1, 1 + size as usize);
        Some((PreImage::from_bytes(raw), 1 + size as usize))
    }

    /// Human-readable encoding: the lowercase hex spelling of the bytes.
    pub fn encode_human(&self) -> (r: Vec<u8>)
        ensures
            r@ == hex_of(self@),
    {
        hex_encode(self.as_bytes())
    }

    /// Parses a hex spelling (digits of either case); its length (64 or 128 digits) selects the
    /// variant.
    pub fn from_str(s: &str) -> (r: Result<PreImage, PreImageParseError>)
        ensures
            match spec_parse_pre_image(s.spec_bytes()) {
                Ok(b) => r matches Ok(p) && p@ == b && p.wf(),
                Err(e) => r == Err::<PreImage, PreImageParseError>(e),
            },
    {
        PreImage::decode_human(s.as_bytes())
    }

    /// Parses a hex spelling given as bytes; see `from_str`.
    pub fn decode_human(s: &[u8]) -> (r: Result<PreImage, PreImageParseError>)
        ensures
            match spec_parse_pre_image(s@) {
                Ok(b) => r matches Ok(p) && p@ == b && p.wf(),
                Err(e) => r == Err::<PreImage, PreImageParseError>(e),
            },
    {
        if s.len() != 64 && s.len() != 128 {
            return Err(PreImageParseError::InvalidStringLength);
        }
        match hex_decode(s) {
            Some(raw) => {
                proof {
                    lemma_hex_decoded_len(s@);
                }
                Ok(PreImage::from_bytes(raw))
            },
            None => Err(PreImageParseError::InvalidHex),
        }
    }
}

/// The bytes a pre-image's hex spelling stands for: 64 or 128 hex digits of either case.
pub open spec fn spec_parse_pre_image(s: Seq<u8>) -> Result<Seq<u8>, PreImageParseError> {
    if s.len() != 64 && s.len() != 128 {
        Err(PreImageParseError::InvalidStringLength)
    } else {
        match hex_decoded(s) {
            Some(b) => Ok(b),
            None => Err(PreImageParseError::InvalidHex),
        }
    }
}

/// Decoded hex has one byte per two digits.
pub proof fn lemma_hex_decoded_len(s: Seq<u8>)
    ensures
        hex_decoded(s) matches Some(b) ==> s.len() == 2 * b.len(),
    decreases s.len(),
{
    if s.len() >= 2 {
        lemma_hex_decoded_len(s.subrange(2, s.len() as int));
    }
}

/// Why a hex spelling is no pre-image.
#[derive(Debug, Clone, Copy, PartialEq, Eq, Structural)]
pub enum PreImageParseError {
    /// Neither 64 nor 128 hex digits.
    InvalidStringLength,
    /// Not a hex spelling.
    InvalidHex,
}


/// A well-formed digest survives both encodings: the compact one decodes back to it, taking
/// all of its bytes, and starts with tag 1, 3 or 4; the human-readable pair decodes back to it.
pub proof fn lemma_any_hash_round_trip(h: AnyHash)
    requires
        h.wf(),
    ensures
        spec_decode_any_hash(h.spec_encode()) == Some((h@, h.spec_encode().len())),
        h.spec_encode()[0] == TAG_BLAKE2B || h.spec_encode()[0] == TAG_SHA256 || h.spec_encode()[0]
            == TAG_SHA512,
        spec_decode_human_any_hash(algorithm_name(h@.0), hex_of(h@.1)) == Some(h@),
{
    let e = h.spec_encode();
    assert(e.subrange(1, 1 + digest_size(e[0]) as int) =~= h@.1);
    lemma_hex_round_trip(h@.1);
    assert(name_blake2b().len() != name_sha256().len());
    assert(name_blake2b().len() != name_sha512().len());
    assert(name_sha256()[3] != name_sha512()[3]);
}

/// A well-formed pre-image survives both encodings: the compact one decodes back to it, taking
/// all of its bytes, and starts with tag 32 or 64; its hex spelling parses back to it.
pub proof fn lemma_pre_image_round_trip(p: PreImage)
    requires
        p.wf(),
    ensures
        spec_decode_pre_image(p.spec_encode()) == Some((p@, p.spec_encode().len())),
        p.spec_encode()[0] == 32 || p.spec_encode()[0] == 64,
        spec_parse_pre_image(hex_of(p@)) == Ok::<Seq<u8>, PreImageParseError>(p@),
{
    let e = p.spec_encode();
    assert(e.subrange(1, 1 + e[0] as int) =~= p@);
    lemma_hex_len(p@);
    lemma_hex_round_trip(p@);
}

/// Bytes after a compact digest do not change how it decodes.
pub proof fn lemma_decode_any_hash_prefix(b: Seq<u8>, extra: Seq<u8>)
    requires
        spec_decode_any_hash(b) is Some,
    ensures
        spec_decode_any_hash(b + extra) == spec_decode_any_hash(b),
{
    let n = 1 + digest_size(b[0]);
    assert((b + extra).subrange(1, n as int) =~= b.subrange(1, n as int));
}

/// Bytes after a compact pre-image do not change how it decodes.
pub proof fn lemma_decode_pre_image_prefix(b: Seq<u8>, extra: Seq<u8>)
    requires
        spec_decode_pre_image(b) is Some,
    ensures
        spec_decode_pre_image(b + extra) == spec_decode_pre_image(b),
{
    let n = 1 + b[0] as int;
    assert((b + extra).subrange(1, n) =~= b.subrange(1, n));
}

/// The compact encoding of a well-formed digest view decodes back to it.
pub proof fn lemma_any_hash_view_round_trip(v: (u8, Seq<u8>))
    requires
        is_hash_tag(v.0),
        v.1.len() == digest_size(v.0),
    ensures
        spec_decode_any_hash(seq![v.0] + v.1) == Some((v, 1 + v.1.len())),
{
    assert((seq![v.0] + v.1).subrange(1, 1 + v.1.len() as int) =~= v.1);
}

/// The compact encoding of a 32- or 64-byte pre-image decodes back to it.
pub proof fn lemma_pre_image_view_round_trip(v: Seq<u8>)
    requires
        v.len() == 32 || v.len() == 64,
    ensures
        spec_decode_pre_image(seq![v.len() as u8] + v) == Some((v, 1 + v.len())),
{
    assert((seq![v.len() as u8] + v).subrange(1, 1 + v.len() as int) =~= v);
}

} // verus!
