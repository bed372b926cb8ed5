//! IPLD blobs: the content identifier a stored blob gets, the key it is stored
//! under, which editor its codec calls for, and the links a DAG-JSON document
//! holds.
use vstd::prelude::*;
use cid::Cid;
use ipld_core::codec::Links;
use multihash_codetable::MultihashDigest;
use serde_ipld_dagjson::codec::DagJsonCodec;
use crate::hexcodec::HexError;
use crate::mish::{blob_editor_for, BlobEditor, SetIpldBlob, RAW_CODEC};

verus! {

/// Unsigned LEB128 encoding of a number, as multiformats varints are written.
pub open spec fn uvarint(n: nat) -> Seq<u8>
    decreases n,
{
    if n < 128 {
        seq![n as u8]
    } else {
        seq![(n % 128 + 128) as u8] + uvarint(n / 128)
    }
}

/// Result of `multihash_codetable::Code::Sha2_256.digest`: the SHA-256 digest
/// of the content.
pub uninterp spec fn sha2_256_digest(content: Seq<u8>) -> Seq<u8>;

/// `Code::Sha2_256.digest(content)`, as bytes: the multihash code 0x12, the
/// digest length 32 (0x20), then the 32-byte digest.
#[verifier::external_body]
fn sha2_256_multihash(content: &[u8]) -> (r: Vec<u8>)
    ensures
        r@.len() == 34,
        r@ == seq![0x12u8, 0x20u8] + sha2_256_digest(content@),
{
    multihash_codetable::Code::Sha2_256.digest(content).to_bytes()
}

/// The bit of `bytes` at position `i`, counting from the most significant
/// bit of the first byte; 0 past the end.
pub open spec fn bit_at(bytes: Seq<u8>, i: int) -> nat {
    if 0 <= i < 8 * bytes.len() {
        ((bytes[i / 8] as nat) / vstd::arithmetic::power2::pow2((7 - i % 8) as nat)) % 2
    } else {
        0
    }
}

/// The number of the `j`-th group of five bits of `bytes`.
pub open spec fn group_of_five(bytes: Seq<u8>, j: int) -> nat {
    16 * bit_at(bytes, 5 * j) + 8 * bit_at(bytes, 5 * j + 1) + 4 * bit_at(bytes, 5 * j + 2) + 2
        * bit_at(bytes, 5 * j + 3) + bit_at(bytes, 5 * j + 4)
}

/// The digit of the lower-case base32 alphabet `abcdefghijklmnopqrstuvwxyz234567`
/// for a number below 32.
pub open spec fn base32_lower_digit(v: nat) -> char {
    if v < 26 {
        (('a' as nat) + v) as char
    } else {
        (('2' as nat) + (v - 26)) as char
    }
}

/// RFC 4648 base32 of `bytes` in lower case without padding: one digit per
/// group of five bits, the last group filled up with zero bits.
pub open spec fn base32_lower(bytes: Seq<u8>) -> Seq<char> {
    Seq::new(((8 * bytes.len() + 4) / 5) as nat, |j: int| base32_lower_digit(group_of_five(bytes, j)))
}

/// The text of a version 1 CID with these bytes: the multibase prefix `b`,
/// then the bytes in lower-case base32.
pub open spec fn cid_text(bytes: Seq<u8>) -> Seq<char> {
    seq!['b'] + base32_lower(bytes)
}

/// The bytes of the version 1 CID with this codec and the SHA-256 multihash
/// of this digest.
pub open spec fn sha2_256_cid_bytes(codec: u64, digest: Seq<u8>) -> Seq<u8> {
    seq![1u8] + uvarint(codec as nat) + seq![0x12u8, 0x20u8] + digest
}

/// `Cid::new_v1(codec, hash)` for the multihash written as bytes, returning
/// the CID's bytes (`to_bytes`) and text (`to_string`). The text is always
/// `b` and the bytes in lower-case base32 (multibase `Base32Lower`). A
/// 34-byte SHA-256 multihash is always accepted, and the CID's bytes are
/// then the version 1, the codec and the multihash, each number as a varint
/// (the crate's `write_bytes_v1`); for other multihashes the bytes are left
/// unsaid.
#[verifier::external_body]
fn cid_v1(codec: u64, multihash: &[u8]) -> (r: Option<(Vec<u8>, String)>)
    ensures
        r matches Some(c) ==> c.1@ == cid_text(c.0@),
        r is None ==> !(multihash@.len() == 34 && multihash@[0] == 0x12 && multihash@[1] == 0x20),
        r matches Some(c) ==> (multihash@.len() == 34 && multihash@[0] == 0x12 && multihash@[1]
            == 0x20 ==> c.0@ == seq![1u8] + uvarint(codec as nat) + multihash@),
{
    match cid::multihash::Multihash::<64>::from_bytes(multihash) {
        Ok(hash) => {
            let cid = Cid::new_v1(codec, hash);
            Some((cid.to_bytes(), cid.to_string()))
        },
        Err(_) => None,
    }
}

/// Result of parsing a CID's text (`str::parse::<Cid>`): its codec and its
/// bytes, or `None` when the text is no CID.
pub uninterp spec fn parsed_cid(text: Seq<char>) -> Option<(u64, Seq<u8>)>;

/// `text` is the text of the version 1 CID with this codec and the SHA-256
/// multihash of this 32-byte digest.
pub open spec fn is_sha2_256_cid_text(text: Seq<char>, codec: u64, digest: Seq<u8>) -> bool {
    digest.len() == 32 && text == cid_text(sha2_256_cid_bytes(codec, digest))
}

/// The codec and digest of which `text` is the version 1 SHA-256 CID text,
/// if it is one.
pub open spec fn sha2_256_cid_parts(text: Seq<char>) -> Option<(u64, Seq<u8>)> {
    if exists|codec: u64, digest: Seq<u8>| is_sha2_256_cid_text(text, codec, digest) {
        Some(choose|codec: u64, digest: Seq<u8>| is_sha2_256_cid_text(text, codec, digest))
    } else {
        None
    }
}

/// Two base32 digits of numbers below 32 are equal only for equal numbers.
proof fn lemma_digit_injective(v: nat, w: nat)
    requires
        v < 32,
        w < 32,
        base32_lower_digit(v) == base32_lower_digit(w),
    ensures
        v == w,
{
    assert(('a' as nat) == 97);
    assert(('2' as nat) == 50);
}

/// A byte is the sum of its bits, each with its weight.
proof fn lemma_byte_from_bits(s: Seq<u8>, k: int)
    requires
        0 <= k < s.len(),
    ensures
        s[k] == 128 * bit_at(s, 8 * k) + 64 * bit_at(s, 8 * k + 1) + 32 * bit_at(s, 8 * k + 2) + 16
            * bit_at(s, 8 * k + 3) + 8 * bit_at(s, 8 * k + 4) + 4 * bit_at(s, 8 * k + 5) + 2
            * bit_at(s, 8 * k + 6) + bit_at(s, 8 * k + 7),
{
    vstd::arithmetic::power2::lemma2_to64();
    let x = s[k];
    assert(bit_at(s, 8 * k) == (x as nat / 128) % 2);
    assert(bit_at(s, 8 * k + 1) == (x as nat / 64) % 2);
    assert(bit_at(s, 8 * k + 2) == (x as nat / 32) % 2);
    assert(bit_at(s, 8 * k + 3) == (x as nat / 16) % 2);
    assert(bit_at(s, 8 * k + 4) == (x as nat / 8) % 2);
    assert(bit_at(s, 8 * k + 5) == (x as nat / 4) % 2);
    assert(bit_at(s, 8 * k + 6) == (x as nat / 2) % 2);
    assert(bit_at(s, 8 * k + 7) == (x as nat / 1) % 2);
    assert(x == 128 * ((x / 128) % 2) + 64 * ((x / 64) % 2) + 32 * ((x / 32) % 2) + 16 * ((x / 16)
        % 2) + 8 * ((x / 8) % 2) + 4 * ((x / 4) % 2) + 2 * ((x / 2) % 2) + x % 2) by (bit_vector);
}

/// Equal base32 texts come from equal bytes.
proof fn lemma_base32_injective(a: Seq<u8>, b: Seq<u8>)
    requires
        base32_lower(a) == base32_lower(b),
    ensures
        a == b,
{
    let n = a.len();
    assert(base32_lower(a).len() == (8 * a.len() + 4) / 5);
    assert(base32_lower(b).len() == (8 * b.len() + 4) / 5);
    assert(a.len() == b.len()) by (nonlinear_arith)
        requires
            (8 * a.len() + 4) / 5 == (8 * b.len() + 4) / 5,
    {}
    assert forall|i: int| 0 <= i < 8 * n implies #[trigger] bit_at(a, i) == bit_at(b, i) by {
        let j = i / 5;
        assert(0 <= j < (8 * n + 4) / 5);
        assert(base32_lower(a)[j] == base32_lower_digit(group_of_five(a, j)));
        assert(base32_lower(b)[j] == base32_lower_digit(group_of_five(b, j)));
        assert(group_of_five(a, j) < 32 && group_of_five(b, j) < 32);
        lemma_digit_injective(group_of_five(a, j), group_of_five(b, j));
        assert(5 * j <= i < 5 * j + 5);
    }
    assert forall|k: int| 0 <= k < n implies a[k] == b[k] by {
        lemma_byte_from_bits(a, k);
        lemma_byte_from_bits(b, k);
    }
    assert(a =~= b);
}

/// A varint is read back from the front of any bytes it starts: no varint
/// is the start of another.
proof fn lemma_uvarint_prefix_free(a: nat, b: nat, s: Seq<u8>, t: Seq<u8>)
    requires
        uvarint(a) + s == uvarint(b) + t,
    ensures
        a == b,
        s == t,
    decreases a,
{
    let x = uvarint(a);
    let y = uvarint(b);
    assert((x + s)[0] == x[0]);
    assert((y + t)[0] == y[0]);
    if a < 128 {
        assert(x[0] == a);
        if b >= 128 {
            assert(y[0] == b % 128 + 128);
        }
        assert(b < 128 && y[0] == b);
        assert(s =~= (x + s).skip(1));
        assert(t =~= (y + t).skip(1));
    } else {
        assert(x[0] == a % 128 + 128);
        if b < 128 {
            assert(y[0] == b);
        }
        assert(b >= 128 && y[0] == b % 128 + 128);
        assert(uvarint(a / 128) + s =~= (x + s).skip(1));
        assert(uvarint(b / 128) + t =~= (y + t).skip(1));
        lemma_uvarint_prefix_free(a / 128, b / 128, s, t);
    }
}

/// The text of a version 1 SHA-256 CID gives back its codec and digest: the
/// text form loses nothing. So the text handed back for a stored blob leads
/// `blob_key` to the key the blob was stored under.
pub proof fn law_sha2_256_cid_text_parts(codec: u64, digest: Seq<u8>)
    requires
        digest.len() == 32,
    ensures
        sha2_256_cid_parts(cid_text(sha2_256_cid_bytes(codec, digest))) == Some((codec, digest)),
{
    let text = cid_text(sha2_256_cid_bytes(codec, digest));
    assert(is_sha2_256_cid_text(text, codec, digest));
    let (c2, d2) = choose|c: u64, d: Seq<u8>| is_sha2_256_cid_text(text, c, d);
    let b1 = sha2_256_cid_bytes(codec, digest);
    let b2 = sha2_256_cid_bytes(c2, d2);
    assert(base32_lower(b1) =~= cid_text(b1).skip(1));
    assert(base32_lower(b2) =~= cid_text(b2).skip(1));
    lemma_base32_injective(b1, b2);
    let m1 = seq![0x12u8, 0x20u8] + digest;
    let m2 = seq![0x12u8, 0x20u8] + d2;
    assert(uvarint(codec as nat) + m1 =~= b1.skip(1));
    assert(uvarint(c2 as nat) + m2 =~= b2.skip(1));
    lemma_uvarint_prefix_free(codec as nat, c2 as nat, m1, m2);
    assert(digest =~= m1.skip(2));
    assert(d2 =~= m2.skip(2));
}

/// `text.parse::<Cid>()`, giving the codec and the bytes of the CID. The text
/// of a version 1 CID with a SHA-256 multihash parses back to its codec and
/// bytes: it holds no `/ipfs/`, does not start with `Qm`, its base32 decodes
/// to the bytes, and reading them gives version 1, the codec and a multihash
/// of code 0x12 and 32 bytes. What other texts give is left to the name.
#[verifier::external_body]
fn parse_cid(text: &str) -> (r: Option<(u64, Vec<u8>)>)
    ensures
        r is Some <==> parsed_cid(text@) is Some,
        r matches Some(c) ==> parsed_cid(text@) == Some((c.0, c.1@)),
        r is None ==> sha2_256_cid_parts(text@) is None,
        r matches Some(c) ==> (sha2_256_cid_parts(text@) matches Some(p) ==> c.0 == p.0 && c.1@
            == sha2_256_cid_bytes(p.0, p.1)),
{
    match text.parse::<Cid>() {
        Ok(cid) => Some((cid.codec(), cid.to_bytes())),
        Err(_) => None,
    }
}

/// Result of `<DagJsonCodec as Links>::links`: the texts of the CIDs that a
/// DAG-JSON document links to, in document order, or `None` when it is no
/// DAG-JSON.
pub uninterp spec fn dag_json_links(data: Seq<u8>) -> Option<Seq<Seq<char>>>;

/// `<DagJsonCodec as Links>::links(data)`, each link given as its text.
#[verifier::external_body]
fn extract_links(data: &[u8]) -> (r: Option<Vec<String>>)
    ensures
        r is Some <==> dag_json_links(data@) is Some,
        r matches Some(v) ==> dag_json_links(data@) == Some(v@.map_values(|s: String| s@)),
{
    match <DagJsonCodec as Links>::links(data) {
        Ok(links) => Some(links.map(|cid| cid.to_string()).collect()),
        Err(_) => None,
    }
}

/// The bytes of the CID of a raw blob: version 1, the raw codec 0x55, then
/// the SHA-256 multihash of the content.
pub open spec fn raw_cid_bytes(content: Seq<u8>) -> Seq<u8> {
    seq![1u8, 0x55u8, 0x12u8, 0x20u8] + sha2_256_digest(content)
}

/// The text of the CID of a raw blob.
pub open spec fn raw_cid_text(content: Seq<u8>) -> Seq<char> {
    cid_text(raw_cid_bytes(content))
}

/// A blob as it is stored: its content, keyed by its CID's bytes, and the
/// CID's text that is handed back.
#[derive(Clone, Debug, PartialEq, Eq)]
pub struct StoredBlob {
    pub key: Vec<u8>,
    pub cid: String,
    pub content: Vec<u8>,
}

/// The CID of a raw blob, as bytes (its storage key) and as text.
pub fn raw_blob_cid(content: &[u8]) -> (r: (Vec<u8>, String))
    ensures
        r.0@ == raw_cid_bytes(content@),
        r.1@ == raw_cid_text(content@),
        sha2_256_digest(content@).len() == 32,
{
    let multihash = sha2_256_multihash(content);
    match cid_v1(RAW_CODEC, multihash.as_slice()) {
        Some(c) => {
            assert(uvarint(RAW_CODEC as nat) =~= seq![0x55u8]);
            assert(c.0@ =~= raw_cid_bytes(content@));
            c
        },
        None => {
            assert(false);
            (Vec::new(), String::new())
        },
    }
}

/// On the server: the blob that a store request asks for, keyed by the CID
/// of its content as a raw blob. Content that is not valid hex is refused.
pub fn blob_to_store(request: &SetIpldBlob) -> (r: Result<StoredBlob, HexError>)
    ensures
        r is Ok <==> crate::hexcodec::hex_decoded(request.content@) is Some,
        r matches Ok(b) ==> {
            &&& crate::hexcodec::hex_decoded(request.content@) == Some(b.content@)
            &&& b.key@ == raw_cid_bytes(b.content@)
            &&& b.cid@ == raw_cid_text(b.content@)
            &&& b.key@ == sha2_256_cid_bytes(RAW_CODEC, sha2_256_digest(b.content@))
            &&& sha2_256_cid_parts(b.cid@) == Some((RAW_CODEC, sha2_256_digest(b.content@)))
        },
{
    let content = crate::mish::requested_blob_bytes(request)?;
    let (key, cid) = raw_blob_cid(content.as_slice());
    proof {
        let d = sha2_256_digest(content@);
        assert(raw_cid_bytes(content@) =~= sha2_256_cid_bytes(RAW_CODEC, d)) by {
            assert(uvarint(RAW_CODEC as nat) =~= seq![0x55u8]);
        }
        law_sha2_256_cid_text_parts(RAW_CODEC, d);
    }
    Ok(StoredBlob { key, cid, content })
}

/// The storage key of the blob with this CID text: the CID's bytes, or
/// `None` when the text is no CID.
pub fn blob_key(cid_text: &str) -> (r: Option<Vec<u8>>)
    ensures
        r is Some <==> parsed_cid(cid_text@) is Some,
        r matches Some(k) ==> (parsed_cid(cid_text@)->0).1 == k@,
        sha2_256_cid_parts(cid_text@) matches Some(p) ==> (r matches Some(k) && k@
            == sha2_256_cid_bytes(p.0, p.1)),
{
    match parse_cid(cid_text) {
        Some((_codec, bytes)) => Some(bytes),
        None => None,
    }
}

/// The editor of the blob page for the blob with this CID text, chosen by
/// the CID's codec; `None` when the text is no CID.
pub fn blob_editor_for_cid(cid_text: &str) -> (r: Option<BlobEditor>)
    ensures
        r is Some <==> parsed_cid(cid_text@) is Some,
        r matches Some(e) ==> e == (if (parsed_cid(cid_text@)->0).0 == crate::mish::RAW_CODEC {
            BlobEditor::Hex
        } else if (parsed_cid(cid_text@)->0).0 == crate::mish::DAG_JSON_CODEC {
            BlobEditor::Json
        } else {
            BlobEditor::Unsupported
        }),
        sha2_256_cid_parts(cid_text@) matches Some(p) ==> r == Some(
            if p.0 == crate::mish::RAW_CODEC {
                BlobEditor::Hex
            } else if p.0 == crate::mish::DAG_JSON_CODEC {
                BlobEditor::Json
            } else {
                BlobEditor::Unsupported
            },
        ),
{
    match parse_cid(cid_text) {
        Some((codec, _bytes)) => Some(blob_editor_for(codec)),
        None => None,
    }
}

/// A link shown on a page: where it leads and its text.
#[derive(Clone, Debug, PartialEq, Eq)]
pub struct LinkView {
    pub href: String,
    pub text: String,
}

/// The links that a DAG-JSON document holds, each leading to the page of the
/// blob it names; `None` when the bytes are no DAG-JSON.
pub fn dag_json_link_views(data: &[u8]) -> (r: Option<Vec<LinkView>>)
    ensures
        r is Some <==> dag_json_links(data@) is Some,
        r matches Some(v) ==> {
            let links = dag_json_links(data@)->0;
            &&& v.len() == links.len()
            &&& forall|i: int|
                0 <= i < v.len() ==> {
                    &&& (#[trigger] v@[i]).text@ == links[i]
                    &&& v@[i].href@ == "/settings/dag-inspector/ipld-blob/"@ + links[i]
                }
        },
{
    match extract_links(data) {
        None => None,
        Some(links) => {
            let ghost texts = links@.map_values(|s: String| s@);
            let mut views: Vec<LinkView> = Vec::new();
            let mut i: usize = 0;
            while i < links.len()
                invariant
                    i <= links.len(),
                    texts == links@.map_values(|s: String| s@),
                    views.len() == i,
                    forall|j: int|
                        0 <= j < i ==> {
                            &&& (#[trigger] views@[j]).text@ == texts[j]
                            &&& views@[j].href@ == "/settings/dag-inspector/ipld-blob/"@ + texts[j]
                        },
                decreases links.len() - i,
            {
                let text = links[i].clone();
                let href = crate::routes::ipld_blob_href(text.as_str());
                views.push(LinkView { href, text });
                i = i + 1;
            }
            Some(views)
        },
    }
}

/// The links of a Mish state value: those of its compact JSON bytes read as
/// DAG-JSON.
pub fn state_link_views(state: &crate::json::JsonValue) -> (r: Option<Vec<LinkView>>)
    ensures
        r is Some <==> dag_json_links(vstd::utf8::encode_utf8(crate::json::json_text(*state))) is Some,
        r matches Some(v) ==> {
            let links = dag_json_links(vstd::utf8::encode_utf8(crate::json::json_text(*state)))->0;
            &&& v.len() == links.len()
            &&& forall|i: int|
                0 <= i < v.len() ==> {
                    &&& (#[trigger] v@[i]).text@ == links[i]
                    &&& v@[i].href@ == "/settings/dag-inspector/ipld-blob/"@ + links[i]
                }
        },
{
    let bytes = crate::json::json_bytes(state);
    dag_json_link_views(bytes.as_slice())
}

} // verus!
