use semcache::utils::cgroup_utils::{read_cgroup_v2_memory_bytes, read_cgroup_v2_memory_kb};
use semcache::utils::header_utils::{
    hop_header, prepare_upstream_headers, proxy_prompt_location_header_name,
    proxy_upstream_header_name, proxy_upstream_host_header_name, remove_hop_headers, Header,
};

fn header(name: &str, value: &str) -> Header {
    Header { name: String::from(name), value: value.as_bytes().to_vec() }
}

#[test]
fn memory_reading_is_the_number_in_the_file() {
    assert_eq!(read_cgroup_v2_memory_bytes("123456\n"), Some(123456));
    assert_eq!(read_cgroup_v2_memory_bytes("  42\t\r\n"), Some(42));
    assert_eq!(read_cgroup_v2_memory_bytes("0"), Some(0));
    assert_eq!(read_cgroup_v2_memory_bytes("+7"), Some(7));
    assert_eq!(read_cgroup_v2_memory_bytes("000123"), Some(123));
    assert_eq!(
        read_cgroup_v2_memory_bytes("18446744073709551615"),
        Some(u64::MAX)
    );
}

#[test]
fn memory_reading_refuses_what_is_no_number() {
    assert_eq!(read_cgroup_v2_memory_bytes(""), None);
    assert_eq!(read_cgroup_v2_memory_bytes("   \n"), None);
    assert_eq!(read_cgroup_v2_memory_bytes("max\n"), None);
    assert_eq!(read_cgroup_v2_memory_bytes("-5"), None);
    assert_eq!(read_cgroup_v2_memory_bytes("+"), None);
    assert_eq!(read_cgroup_v2_memory_bytes("12 34"), None);
    assert_eq!(read_cgroup_v2_memory_bytes("12a"), None);
    assert_eq!(read_cgroup_v2_memory_bytes("1.5"), None);
    assert_eq!(read_cgroup_v2_memory_bytes("18446744073709551616"), None);
    assert_eq!(read_cgroup_v2_memory_bytes("99999999999999999999999"), None);
}

#[test]
fn memory_reading_agrees_with_the_standard_parser() {
    let texts = [
        "1",
        " 17 ",
        "\n\n65536\n",
        "x",
        "",
        "+12",
        "++12",
        "4294967296",
        "\u{a0}12\u{2003}",
        "\u{3000}7\u{85}",
        "\u{1680}1\u{1680}",
        "\u{2028}5\u{2029}",
        "\u{202f}6\u{205f}",
        "\u{2000}\u{200a} 8 \u{2001}\t",
        "\u{200b}9",
        "9\u{200b}",
        "\u{e9}12",
        "12\u{feff}",
        "\u{85}",
        "1\u{a0}2",
    ];
    for text in texts {
        assert_eq!(
            read_cgroup_v2_memory_bytes(text),
            text.trim().parse::<u64>().ok(),
            "{text:?}"
        );
    }
    assert_eq!(read_cgroup_v2_memory_bytes("\u{a0}12\u{2003}"), Some(12));
    assert_eq!(read_cgroup_v2_memory_bytes("\u{200b}9"), None);
}

#[test]
fn memory_kb_is_bytes_over_1024() {
    assert_eq!(read_cgroup_v2_memory_kb(None), None);
    assert_eq!(read_cgroup_v2_memory_kb(Some(0)), Some(0));
    assert_eq!(read_cgroup_v2_memory_kb(Some(1023)), Some(0));
    assert_eq!(read_cgroup_v2_memory_kb(Some(1024)), Some(1));
    assert_eq!(read_cgroup_v2_memory_kb(Some(10_000_000)), Some(9765));
    assert_eq!(read_cgroup_v2_memory_kb(Some(u64::MAX)), Some(u64::MAX / 1024));
}

#[test]
fn hop_headers_are_the_twelve() {
    let hop = [
        "connection",
        "te",
        "trailer",
        "keep-alive",
        "proxy-connection",
        "proxy-authenticate",
        "proxy-authorization",
        "transfer-encoding",
        "upgrade",
        "host",
        "content-length",
        "content-encoding",
    ];
    for name in hop {
        assert!(hop_header(&String::from(name)), "{name}");
    }
    for name in ["content-type", "authorization", "x-llm-prompt", "x-llm-proxy-upstream", "", "Host"] {
        assert!(!hop_header(&String::from(name)), "{name}");
    }
}

#[test]
fn remove_hop_headers_keeps_the_rest_in_order() {
    let mut headers = vec![
        header("host", "example.org"),
        header("authorization", "token"),
        header("connection", "keep-alive"),
        header("x-llm-prompt", "$.prompt"),
        header("content-type", "application/json"),
        header("content-length", "12"),
        header("accept", "a"),
        header("accept", "b"),
    ];
    remove_hop_headers(&mut headers);
    assert_eq!(
        headers,
        vec![
            header("authorization", "token"),
            header("x-llm-prompt", "$.prompt"),
            header("content-type", "application/json"),
            header("accept", "a"),
            header("accept", "b"),
        ]
    );
    let mut none: Vec<Header> = Vec::new();
    remove_hop_headers(&mut none);
    assert_eq!(none, Vec::new());
}

#[test]
fn upstream_headers_drop_the_proxys_own_too() {
    let headers = vec![
        header("x-llm-proxy-upstream", "https://clart.com"),
        header("x-llm-proxy-host", "https://api.deepseek.com"),
        header("x-llm-prompt", "$.prompt"),
        header("upgrade", "h2c"),
        header("authorization", "token"),
        header("te", "trailers"),
    ];
    assert_eq!(
        prepare_upstream_headers(headers),
        vec![
            header("x-llm-proxy-host", "https://api.deepseek.com"),
            header("authorization", "token"),
        ]
    );
}

#[test]
fn proxy_header_names() {
    assert_eq!(proxy_upstream_host_header_name(), "x-llm-proxy-host");
    assert_eq!(proxy_upstream_header_name(), "x-llm-proxy-upstream");
    assert_eq!(proxy_prompt_location_header_name(), "x-llm-prompt");
}
