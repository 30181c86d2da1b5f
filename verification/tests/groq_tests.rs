use van::groq::{
    curl_args, extract_groq_content, groq_api_key_path, groq_reply, groq_reply_bytes, json_escape,
    key_file_text, load_groq_api_key, request_body, ConfigBase,
};

#[test]
fn escaping() {
    assert_eq!(json_escape("plain \u{e9}"), "plain \u{e9}");
    assert_eq!(json_escape("\\ \" \n \r \t \u{8} \u{c}"), "\\\\ \\\" \\n \\r \\t \\b \\f");
    assert_eq!(json_escape("\u{0}\u{1b}\u{7f}\u{9f}"), "\\u0000\\u001b\\u007f\\u009f");
}

#[test]
fn content_is_found_and_unescaped() {
    let resp = "{\"id\":1,\"message\":{\"content\":\"a\\n\\\"b\\\"\\/\\t\\u00e9\"},\"content\":\"no\"}";
    assert_eq!(extract_groq_content(resp), Some("a\n\"b\"/\t\u{e9}".to_string()));
    assert_eq!(extract_groq_content("{\"content\":\"\"}"), Some("".to_string()));
    assert_eq!(extract_groq_content("{\"content\": \"x\"}"), None);
    assert_eq!(extract_groq_content("\"content\":\"unterminated"), None);
    assert_eq!(extract_groq_content("\"content\":\"x\\"), None);
    assert_eq!(extract_groq_content("\"content\":\"x\\u00e"), None);
    assert_eq!(extract_groq_content(""), None);
}

#[test]
fn odd_escapes() {
    assert_eq!(extract_groq_content("\"content\":\"\\q\\b\\f\\r\""), Some("q\u{8}\u{c}\r".to_string()));
    // No number, and no character of its own: nothing comes out.
    assert_eq!(extract_groq_content("\"content\":\"<\\uzzzz>\""), Some("<>".to_string()));
    assert_eq!(extract_groq_content("\"content\":\"<\\ud83d\\ude00>\""), Some("<>".to_string()));
    // A sign before the digits counts as none.
    assert_eq!(extract_groq_content("\"content\":\"\\u+041\""), Some("A".to_string()));
    assert_eq!(extract_groq_content("\"content\":\"\\uABcd\""), Some("\u{abcd}".to_string()));
    assert_eq!(extract_groq_content("\"content\":\"\\u++41\""), Some("".to_string()));
}

#[test]
fn escaped_text_reads_back() {
    for s in ["", "a\"b\\c", "\u{0}\u{1f}\u{80}\n\r\t\u{8}\u{c}", "\\u0041", "\u{20ac}\u{1f600}"] {
        let resp = "{\"x\":[],\"content\":\"".to_string() + &json_escape(s) + "\",\"y\":2}";
        assert_eq!(extract_groq_content(&resp), Some(s.to_string()));
    }
}

#[test]
fn request_text() {
    assert_eq!(
        request_body("m", "a\nb", "why \"x\"?"),
        r#"{"model":"m","messages":[{"role":"system","content":"You are a concise coding assistant. Be practical and direct."},{"role":"user","content":"Current file:\n\na\nb\n\nUser request:\nwhy \"x\"?"}],"temperature":0.2}"#
    );
}

#[test]
fn request_arguments() {
    let args = curl_args("the-key", "{}".to_string());
    assert_eq!(
        args,
        vec![
            "-sS",
            "-X",
            "POST",
            "https://api.groq.com/openai/v1/chat/completions",
            "-H",
            "Authorization: Bearer the-key",
            "-H",
            "Content-Type: application/json",
            "-d",
            "{}",
        ]
    );
}

#[test]
fn replies() {
    assert_eq!(groq_reply(true, "{\"content\":\"hi\"}", ""), Ok("hi".to_string()));
    assert_eq!(groq_reply(true, "{\"content\":\" \\n\"}", ""), Err("empty Groq reply".to_string()));
    assert_eq!(
        groq_reply(true, "{}", "ignored"),
        Err("could not extract Groq response content".to_string())
    );
    assert_eq!(groq_reply(false, "out\n", " err "), Err("err".to_string()));
    assert_eq!(groq_reply(false, " out\n", " \n"), Err("out".to_string()));
    assert_eq!(groq_reply(false, "", ""), Err("Groq request failed".to_string()));
}

#[test]
fn replies_in_bytes() {
    assert_eq!(
        groq_reply_bytes(true, "{\"content\":\"\u{e9}\"}".as_bytes(), b""),
        Ok("\u{e9}".to_string())
    );
    assert_eq!(groq_reply_bytes(false, b"", b"bad \xff byte"), Err("bad \u{fffd} byte".to_string()));
}

#[test]
fn key_file_place() {
    let p = groq_api_key_path(true, true, true).unwrap();
    assert_eq!(p.base, ConfigBase::XdgConfigHome);
    assert_eq!(p.names, vec!["van_groq_api_key"]);
    let p = groq_api_key_path(false, true, true).unwrap();
    assert_eq!(p.base, ConfigBase::Home);
    assert_eq!(p.names, vec![".config", "van_groq_api_key"]);
    let p = groq_api_key_path(false, false, true).unwrap();
    assert_eq!(p.base, ConfigBase::UserProfile);
    assert_eq!(p.names, vec!["van_groq_api_key"]);
    assert!(groq_api_key_path(false, false, false).is_none());
}

#[test]
fn keys_read_back() {
    assert_eq!(load_groq_api_key(Some(" abc\n".to_string())), Some("abc".to_string()));
    assert_eq!(load_groq_api_key(Some(" \n".to_string())), None);
    assert_eq!(load_groq_api_key(None), None);
    assert_eq!(
        load_groq_api_key(Some(key_file_text("  abc def "))),
        Some("abc def".to_string())
    );
}

#[test]
fn a_request_reads_as_what_it_was_made_of() {
    let file = "say \"hi\",\"content\":\"\\n\u{1}";
    let body = request_body("m\"1", file, "why?\n");
    // The first content field is the advice to the assistant.
    assert_eq!(
        extract_groq_content(&body),
        Some("You are a concise coding assistant. Be practical and direct.".to_string())
    );
    let user = &body[body.find("\"user\"").unwrap()..];
    assert_eq!(
        extract_groq_content(user),
        Some("Current file:\n\n".to_string() + file + "\n\nUser request:\nwhy?\n")
    );
    let model = body.replacen("{\"model\":\"", "\"content\":\"", 1);
    assert_eq!(extract_groq_content(&model), Some("m\"1".to_string()));
}
