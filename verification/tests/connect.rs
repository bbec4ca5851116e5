use scrawler::connect::{app_slug, editor_json, mcp_url, servers_json};

#[test]
fn endpoint_and_slug() {
    assert_eq!(mcp_url(8765), "http://127.0.0.1:8765/mcp");
    assert_eq!(mcp_url(0), "http://127.0.0.1:0/mcp");
    assert_eq!(app_slug("My Mail App"), "my-mail-app");
    assert_eq!(app_slug("ÉCOLE"), "école");
}

#[test]
fn host_snippets() {
    let url = mcp_url(9000);
    assert_eq!(
        servers_json("mail", &url),
        "{\n  \"mcpServers\": {\n    \"mail\": {\n      \"type\": \"http\",\n      \"url\": \"http://127.0.0.1:9000/mcp\"\n    }\n  }\n}"
    );
    let e = editor_json("mail", &url);
    assert!(e.starts_with("{\n  \"mcp\": {\n    \"servers\": {\n      \"mail\": {"));
    assert!(e.ends_with("\"url\": \"http://127.0.0.1:9000/mcp\"\n      }\n    }\n  }\n}"));
}
