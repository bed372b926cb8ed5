use iron_nest::cli::{
    blob_endpoint, blob_format, default_server_url, is_success, state_endpoint,
    state_update_body, state_update_result, uploaded_cid, BlobFormat, UploadError,
};

#[test]
fn upload_format_compares_whole_path_components() {
    assert_eq!(blob_format("data.json"), BlobFormat::Raw);
    assert_eq!(blob_format("/tmp/data.json"), BlobFormat::Raw);
    assert_eq!(blob_format(".json"), BlobFormat::DagJson);
    assert_eq!(blob_format("dir/.json"), BlobFormat::DagJson);
    assert_eq!(blob_format("picture.png"), BlobFormat::Raw);
}

#[test]
fn endpoints() {
    assert_eq!(blob_endpoint(BlobFormat::DagJson), "/api/mish/blob.dag-json");
    assert_eq!(blob_endpoint(BlobFormat::Raw), "/api/mish/blob.raw");
    assert_eq!(state_endpoint(), "/api/mish/state");
    assert_eq!(default_server_url(), "http://localhost:3000");
}

#[test]
fn state_update_body_is_sorted_compact_json() {
    let body = state_update_body("fish_tank", "light.blue", "bafkreiabc");
    assert_eq!(
        body,
        "{\"content\":{\"/\":\"bafkreiabc\"},\"mish_state_name\":\"fish_tank\",\"path\":\"light.blue\"}"
    );
    let mut link = serde_json::Map::new();
    link.insert("/".to_string(), serde_json::Value::String("cid".to_string()));
    let mut object = serde_json::Map::new();
    object.insert("mish_state_name".to_string(), serde_json::Value::String("a \"quoted\" name".to_string()));
    object.insert("path".to_string(), serde_json::Value::String("p\\q".to_string()));
    object.insert("content".to_string(), serde_json::Value::Object(link));
    let expected = serde_json::Value::Object(object);
    let body = state_update_body("a \"quoted\" name", "p\\q", "cid");
    assert_eq!(body, serde_json::to_string(&expected).unwrap());
}

#[test]
fn blob_upload_replies() {
    assert_eq!(uploaded_cid(200, "\"bafkreiabc\""), Ok("bafkreiabc".to_string()));
    assert_eq!(uploaded_cid(201, "\"x\""), Ok("x".to_string()));
    assert_eq!(uploaded_cid(500, "\"bafkreiabc\""), Err(UploadError::BlobRejected(500)));
    assert_eq!(uploaded_cid(404, "not found"), Err(UploadError::BlobRejected(404)));
    assert_eq!(uploaded_cid(200, "bafkreiabc"), Err(UploadError::MalformedCid));
    assert_eq!(uploaded_cid(200, "42"), Err(UploadError::MalformedCid));
}

#[test]
fn state_update_replies() {
    assert_eq!(state_update_result(200), Ok(()));
    assert_eq!(state_update_result(299), Ok(()));
    assert_eq!(state_update_result(300), Err(UploadError::StateRejected(300)));
    assert_eq!(state_update_result(199), Err(UploadError::StateRejected(199)));
    assert!(is_success(204));
    assert!(!is_success(400));
}
