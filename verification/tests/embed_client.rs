use physicslang::embed::{
    EmbedClient, DEFAULT_EMBED_URL, DEFAULT_TIMEOUT_SECS, LOCAL_QWEN_MODEL, QWEN_EMBED_DIM,
};

#[test]
fn default_client_targets_local_server_without_model() {
    let c = EmbedClient::default();
    assert_eq!(c.url, "http://127.0.0.1:8302/v1/embeddings");
    assert_eq!(c.url, DEFAULT_EMBED_URL);
    assert_eq!(c.model, "");
    assert_eq!(c.timeout_secs, 120);
    assert_eq!(c.timeout_secs, DEFAULT_TIMEOUT_SECS);
}

#[test]
fn local_qwen_names_the_qwen_model() {
    let c = EmbedClient::local_qwen();
    assert_eq!(c.url, DEFAULT_EMBED_URL);
    assert_eq!(c.model, "/home/ruffianl/models/Qwen3-Embedding-8B-Q8_0.gguf");
    assert_eq!(c.model, LOCAL_QWEN_MODEL);
    assert_eq!(c.timeout_secs, 120);
}

#[test]
fn qwen_dimension_is_4096() {
    assert_eq!(QWEN_EMBED_DIM, 4096);
}

#[test]
fn request_body_without_model_has_only_input() {
    let c = EmbedClient::default();
    assert_eq!(c.request_body("hamster"), "{\"input\":\"hamster\"}");
}

#[test]
fn request_body_with_model_adds_model() {
    let c = EmbedClient::local_qwen();
    assert_eq!(
        c.request_body("eats"),
        "{\"input\":\"eats\",\"model\":\"/home/ruffianl/models/Qwen3-Embedding-8B-Q8_0.gguf\"}"
    );
}

#[test]
fn request_body_escapes_json_specials() {
    let c = EmbedClient {
        url: String::from("http://localhost/v1/embeddings"),
        model: String::from("m\"x"),
        timeout_secs: 5,
    };
    assert_eq!(
        c.request_body("a\"b\\c\nd"),
        "{\"input\":\"a\\\"b\\\\c\\nd\",\"model\":\"m\\\"x\"}"
    );
}

#[test]
fn request_body_of_empty_text() {
    let c = EmbedClient::default();
    assert_eq!(c.request_body(""), "{\"input\":\"\"}");
}

#[test]
fn request_body_keeps_non_ascii_verbatim() {
    let c = EmbedClient::default();
    assert_eq!(c.request_body("magma→火"), "{\"input\":\"magma→火\"}");
}

#[test]
fn request_body_escapes_control_characters_in_hex() {
    let c = EmbedClient::default();
    assert_eq!(
        c.request_body("a\u{1}\u{1f}\t\r\u{8}\u{c}/\u{7f}"),
        "{\"input\":\"a\\u0001\\u001f\\t\\r\\b\\f/\u{7f}\"}"
    );
}
