use playlist_relay::playlist_id::effective_playlist_id;
use playlist_relay::reply::{error_body, reply_for, response_time_header, videos_body, AdapterError};
use playlist_relay::shaping::{shape_items, ItemFields, VideoSummary};
use playlist_relay::upstream::{
    decode_body, interpret_reply, prepare_request, shape_body, upstream_url, BodyShape,
    UpstreamReply,
};

fn item(id: Option<&str>, title: Option<&str>) -> ItemFields {
    ItemFields { video_id: id.map(|s| s.to_string()), title: title.map(|s| s.to_string()) }
}

fn answered(body: &str) -> UpstreamReply {
    UpstreamReply::Answered {
        success: true,
        status_text: "200 OK".to_string(),
        body: body.as_bytes().to_vec(),
    }
}

fn pairs(v: &[VideoSummary]) -> Vec<(String, String)> {
    v.iter().map(|s| (s.video_id.clone(), s.title.clone())).collect()
}

#[test]
fn first_uc_only_is_replaced() {
    assert_eq!(effective_playlist_id("UCabcUCdef"), "UUabcUCdef");
}

#[test]
fn id_without_uc_is_unchanged() {
    assert_eq!(effective_playlist_id("xyz123"), "xyz123");
    assert_eq!(effective_playlist_id(""), "");
    assert_eq!(effective_playlist_id("U"), "U");
    assert_eq!(effective_playlist_id("CU"), "CU");
}

#[test]
fn uc_in_the_middle_is_replaced() {
    assert_eq!(effective_playlist_id("abUCd"), "abUUd");
    assert_eq!(effective_playlist_id("UUC"), "UUU");
    assert_eq!(effective_playlist_id("éUC"), "éUU");
}

#[test]
fn url_carries_id_key_and_page_size() {
    assert_eq!(
        upstream_url("UUx", "k1"),
        "https://youtube.googleapis.com/youtube/v3/playlistItems?part=snippet&playlistId=UUx&key=k1&maxResults=5"
    );
}

#[test]
fn prepare_uses_effective_id() {
    let q = prepare_request("UCchan", Some("key")).ok().unwrap();
    assert_eq!(q.playlist_id, "UUchan");
    assert_eq!(
        q.url,
        "https://youtube.googleapis.com/youtube/v3/playlistItems?part=snippet&playlistId=UUchan&key=key&maxResults=5"
    );
}

#[test]
fn missing_credential_gives_500() {
    let e = match prepare_request("UCchan", None) {
        Err(e) => e,
        Ok(_) => panic!("a request without credential was prepared"),
    };
    assert!(matches!(e, AdapterError::ConfigurationMissing));
    let r = reply_for(&Err(e), 7);
    assert_eq!(r.status, 500);
    assert_eq!(r.body, "{\"error\":\"YOUTUBE_API_KEY is not set\"}");
    assert!(r.response_time.is_none());
}

#[test]
fn all_complete_items_are_kept_in_order() {
    let items = vec![
        item(Some("a"), Some("A")),
        item(Some("b"), Some("B")),
        item(Some("c"), Some("C")),
    ];
    let out = shape_items(&items);
    assert_eq!(out.len(), 3);
    assert_eq!(
        pairs(&out),
        vec![
            ("a".to_string(), "A".to_string()),
            ("b".to_string(), "B".to_string()),
            ("c".to_string(), "C".to_string()),
        ]
    );
}

#[test]
fn incomplete_items_are_dropped() {
    let items = vec![
        item(Some("a"), Some("A")),
        item(None, Some("B")),
        item(Some("c"), None),
        item(Some("d"), Some("D")),
    ];
    let out = shape_items(&items);
    assert_eq!(
        pairs(&out),
        vec![("a".to_string(), "A".to_string()), ("d".to_string(), "D".to_string())]
    );
}

#[test]
fn empty_items_give_empty_array() {
    let out = shape_items(&Vec::new());
    assert!(out.is_empty());
    assert_eq!(videos_body(&out), "[]");
}

#[test]
fn body_with_items_is_read_and_shaped() {
    let body = r#"{"items":[
        {"snippet":{"title":"First","resourceId":{"videoId":"v1"}}},
        {"snippet":{"title":"No id","resourceId":{}}},
        {"snippet":{"resourceId":{"videoId":"v3"}}},
        {"snippet":{"title":7,"resourceId":{"videoId":"v4"}}},
        {"snippet":{"title":"Last","resourceId":{"videoId":"v5"}}}
    ]}"#;
    let videos = match interpret_reply(&answered(body)) {
        Ok(v) => v,
        Err(_) => panic!("a well-formed body was refused"),
    };
    assert_eq!(
        pairs(&videos),
        vec![("v1".to_string(), "First".to_string()), ("v5".to_string(), "Last".to_string())]
    );
    let r = reply_for(&Ok(videos), 12);
    assert_eq!(r.status, 200);
    assert_eq!(
        r.body,
        "[{\"title\":\"First\",\"videoId\":\"v1\"},{\"title\":\"Last\",\"videoId\":\"v5\"}]"
    );
    assert_eq!(r.response_time, Some("12ms".to_string()));
}

#[test]
fn body_without_items_gives_404() {
    let out = interpret_reply(&answered("{\"kind\":\"list\"}"));
    assert!(matches!(out, Err(AdapterError::NoItemsFound)));
    let r = reply_for(&out, 3);
    assert_eq!(r.status, 404);
    assert_eq!(r.body, "{\"error\":\"No videos found\"}");
    assert!(r.response_time.is_none());
}

#[test]
fn items_that_are_not_an_array_give_404() {
    assert!(matches!(decode_body(b"{\"items\":{}}"), BodyShape::NoItems));
    assert!(matches!(decode_body(b"[1,2]"), BodyShape::NoItems));
}

#[test]
fn body_that_is_not_json_gives_500() {
    let out = interpret_reply(&answered("<html>"));
    assert!(matches!(out, Err(AdapterError::ParseFailed)));
    let r = reply_for(&out, 3);
    assert_eq!(r.status, 500);
    assert_eq!(r.body, "{\"error\":\"Failed to parse response\"}");
}

#[test]
fn forbidden_upstream_gives_500_with_status_text() {
    let reply = UpstreamReply::Answered {
        success: false,
        status_text: "403 Forbidden".to_string(),
        body: b"{\"items\":[]}".to_vec(),
    };
    let out = interpret_reply(&reply);
    let r = reply_for(&out, 9);
    assert_eq!(r.status, 500);
    assert!(r.body.contains("403 Forbidden"));
    assert_eq!(r.body, "{\"error\":\"403 Forbidden\"}");
    assert!(r.response_time.is_none());
}

#[test]
fn transport_failure_gives_500() {
    let out = interpret_reply(&UpstreamReply::TransportFailed);
    assert!(matches!(out, Err(AdapterError::RequestFailed)));
    let r = reply_for(&out, 1);
    assert_eq!(r.status, 500);
    assert_eq!(r.body, "{\"error\":\"Request failed\"}");
}

#[test]
fn response_time_header_is_integer_and_ms() {
    for (n, s) in [(0u128, "0ms"), (7, "7ms"), (10, "10ms"), (1234, "1234ms")] {
        let h = response_time_header(n);
        assert_eq!(h, s);
        let digits = h.strip_suffix("ms").unwrap();
        assert_eq!(digits.parse::<u128>().unwrap(), n);
    }
    assert_eq!(response_time_header(u128::MAX), format!("{}ms", u128::MAX));
}

#[test]
fn repeated_requests_give_identical_output() {
    let body = r#"{"items":[{"snippet":{"title":"T","resourceId":{"videoId":"v"}}}]}"#;
    let a = reply_for(&interpret_reply(&answered(body)), 5);
    let b = reply_for(&interpret_reply(&answered(body)), 5);
    assert_eq!(a.status, b.status);
    assert_eq!(a.body, b.body);
    assert_eq!(a.body, "[{\"title\":\"T\",\"videoId\":\"v\"}]");
}

#[test]
fn json_text_is_escaped() {
    let v = vec![VideoSummary { video_id: "a\"b".to_string(), title: "line\nnext".to_string() }];
    assert_eq!(videos_body(&v), "[{\"title\":\"line\\nnext\",\"videoId\":\"a\\\"b\"}]");
    let e = AdapterError::UpstreamStatus("x\"y".to_string());
    assert_eq!(error_body(&e), "{\"error\":\"x\\\"y\"}");
}

#[test]
fn error_statuses_and_messages() {
    assert_eq!(AdapterError::NoItemsFound.status_code(), 404);
    assert_eq!(AdapterError::ParseFailed.status_code(), 500);
    assert_eq!(AdapterError::RequestFailed.status_code(), 500);
    assert_eq!(AdapterError::ConfigurationMissing.status_code(), 500);
    assert_eq!(AdapterError::UpstreamStatus("502 Bad Gateway".to_string()).status_code(), 500);
    assert_eq!(AdapterError::UpstreamStatus("502 Bad Gateway".to_string()).message(), "502 Bad Gateway");
}

#[test]
fn shape_body_maps_each_shape() {
    assert!(matches!(shape_body(BodyShape::Malformed), Err(AdapterError::ParseFailed)));
    assert!(matches!(shape_body(BodyShape::NoItems), Err(AdapterError::NoItemsFound)));
    let out = shape_body(BodyShape::Items(vec![item(Some("x"), Some("X"))])).ok().unwrap();
    assert_eq!(pairs(&out), vec![("x".to_string(), "X".to_string())]);
}

#[test]
fn control_characters_are_escaped() {
    let e = AdapterError::UpstreamStatus("a\u{1}b\u{1f}c\u{8}\u{c}\r\t\\".to_string());
    assert_eq!(error_body(&e), "{\"error\":\"a\\u0001b\\u001fc\\b\\f\\r\\t\\\\\"}");
    let e = AdapterError::UpstreamStatus("é/\u{7f}".to_string());
    assert_eq!(error_body(&e), "{\"error\":\"é/\u{7f}\"}");
}

#[test]
fn empty_items_array_gives_empty_list() {
    let out = interpret_reply(&answered("{\"items\":[]}"));
    let r = reply_for(&out, 0);
    assert_eq!(r.status, 200);
    assert_eq!(r.body, "[]");
    assert_eq!(r.response_time, Some("0ms".to_string()));
}

#[test]
fn items_that_are_not_objects_are_dropped() {
    let body = r#"{"items":[1,"x",null,{"title":"T"},{"snippet":{"title":"K","resourceId":{"videoId":"k"}}}]}"#;
    let fields = match decode_body(body.as_bytes()) {
        BodyShape::Items(f) => f,
        _ => panic!("the items array was not read"),
    };
    assert_eq!(fields.len(), 5);
    assert!(fields[0].video_id.is_none() && fields[0].title.is_none());
    assert!(fields[3].video_id.is_none() && fields[3].title.is_none());
    assert_eq!(fields[4].video_id.as_deref(), Some("k"));
    assert_eq!(fields[4].title.as_deref(), Some("K"));
    let out = shape_items(&fields);
    assert_eq!(pairs(&out), vec![("k".to_string(), "K".to_string())]);
}
