use cid::Cid;
use iron_nest::blobs::{
    blob_editor_for_cid, blob_key, blob_to_store, dag_json_link_views, raw_blob_cid,
    state_link_views,
};
use iron_nest::hexcodec::HexError;
use iron_nest::json::JsonValue;
use iron_nest::mish::{blob_editor_for, BlobEditor, SetIpldBlob};
use multihash_codetable::{Code, MultihashDigest};

const HELLO_WORLD_CID: &str = "bafkreifzjut3te2nhyekklss27nh3k72ysco7y32koao5eei66wof36n5e";

#[test]
fn raw_blob_cid_matches_the_cid_crate() {
    let (key, text) = raw_blob_cid(b"hello world");
    let expected = Cid::new_v1(0x55, Code::Sha2_256.digest(b"hello world"));
    assert_eq!(key, expected.to_bytes());
    assert_eq!(text, expected.to_string());
    assert_eq!(text, HELLO_WORLD_CID);
    assert_eq!(&key[..4], &[0x01, 0x55, 0x12, 0x20]);
    assert_eq!(key.len(), 36);
}

#[test]
fn stored_blob_is_keyed_by_its_cid() {
    let request = SetIpldBlob { content: iron_nest::hexcodec::encode_hex(b"hello world") };
    let stored = blob_to_store(&request).unwrap();
    assert_eq!(stored.content, b"hello world".to_vec());
    assert_eq!(stored.cid, HELLO_WORLD_CID);
    assert_eq!(blob_key(&stored.cid), Some(stored.key.clone()));
    let bad = SetIpldBlob { content: "abc".to_string() };
    assert_eq!(blob_to_store(&bad), Err(HexError::OddLength));
}

#[test]
fn blob_editor_follows_the_codec() {
    assert_eq!(blob_editor_for_cid(HELLO_WORLD_CID), Some(BlobEditor::Hex));
    let dag_json = Cid::new_v1(0x0129, Code::Sha2_256.digest(b"{}")).to_string();
    assert_eq!(blob_editor_for_cid(&dag_json), Some(BlobEditor::Json));
    let dag_cbor = Cid::new_v1(0x71, Code::Sha2_256.digest(b"x")).to_string();
    assert_eq!(blob_editor_for_cid(&dag_cbor), Some(BlobEditor::Unsupported));
    assert_eq!(blob_editor_for_cid("not a cid"), None);
    assert_eq!(blob_key("x"), None);
    assert_eq!(blob_editor_for(0x55), BlobEditor::Hex);
    assert_eq!(blob_editor_for(0x0129), BlobEditor::Json);
    assert_eq!(blob_editor_for(0x70), BlobEditor::Unsupported);
}

#[test]
fn links_of_a_dag_json_document() {
    let doc = format!("{{\"photo\":{{\"/\":\"{HELLO_WORLD_CID}\"}},\"n\":1}}");
    let links = dag_json_link_views(doc.as_bytes()).unwrap();
    assert_eq!(links.len(), 1);
    assert_eq!(links[0].text, HELLO_WORLD_CID);
    assert_eq!(links[0].href, format!("/settings/dag-inspector/ipld-blob/{HELLO_WORLD_CID}"));
    assert_eq!(dag_json_link_views(b"{\"n\":1}").unwrap().len(), 0);
    assert!(dag_json_link_views(b"{not json").is_none());
}

#[test]
fn links_of_a_mish_state() {
    let state = JsonValue::Object(vec![
        (
            "content".to_string(),
            JsonValue::Object(vec![("/".to_string(), JsonValue::Str(HELLO_WORLD_CID.to_string()))]),
        ),
        ("path".to_string(), JsonValue::Str("a.b".to_string())),
    ]);
    let links = state_link_views(&state).unwrap();
    assert_eq!(links.len(), 1);
    assert_eq!(links[0].text, HELLO_WORLD_CID);
}

fn base32_lower(bytes: &[u8]) -> String {
    let alphabet = b"abcdefghijklmnopqrstuvwxyz234567";
    let bits: Vec<u8> = bytes.iter().flat_map(|b| (0..8).rev().map(move |k| (b >> k) & 1)).collect();
    bits.chunks(5)
        .map(|group| {
            let mut v = 0usize;
            for i in 0..5 {
                v = 2 * v + *group.get(i).unwrap_or(&0) as usize;
            }
            alphabet[v] as char
        })
        .collect()
}

#[test]
fn cid_text_is_b_then_base32_of_the_key() {
    for content in [&b""[..], b"hello world", b"\x00\xff\x10"] {
        let (key, text) = raw_blob_cid(content);
        assert_eq!(text, format!("b{}", base32_lower(&key)));
        assert_eq!(text.len(), 1 + (8 * key.len() + 4) / 5);
    }
    let (_, empty) = raw_blob_cid(b"");
    assert_eq!(empty, "bafkreihdwdcefgh4dqkjv67uzcmw7ojee6xedzdetojuzjevtenxquvyku");
}

#[test]
fn cid_texts_read_back_to_their_bytes() {
    for codec in [0u64, 0x55, 0x0129, 127, 128, 300, 1 << 40, u64::MAX] {
        let cid = Cid::new_v1(codec, Code::Sha2_256.digest(b"some content"));
        assert_eq!(blob_key(&cid.to_string()), Some(cid.to_bytes()));
    }
    let request = SetIpldBlob { content: String::new() };
    let stored = blob_to_store(&request).unwrap();
    assert_eq!(blob_key(&stored.cid), Some(stored.key.clone()));
    assert_eq!(blob_editor_for_cid(&stored.cid), Some(BlobEditor::Hex));
}
