use ipc_bridge::outcome::proxy_response_result;
use ipc_bridge::rewrite::rewrite_html;
use ipc_bridge::text::contains_chars;
use ipc_bridge::text::replace_all;

fn chars(s: &str) -> Vec<char> {
    s.chars().collect()
}

fn string(v: Vec<char>) -> String {
    v.into_iter().collect()
}

#[test]
fn replaces_every_occurrence_left_to_right() {
    let out = replace_all(&chars("xaxax"), &chars("a"), &chars("bb"));
    assert_eq!(string(out), "xbbxbbx");
}

#[test]
fn replacement_does_not_overlap() {
    let out = replace_all(&chars("aaa"), &chars("aa"), &chars("b"));
    assert_eq!(string(out), "ba");
}

#[test]
fn absent_pattern_leaves_the_text_unchanged() {
    let out = replace_all(&chars("hello"), &chars("xyz"), &chars("!"));
    assert_eq!(string(out), "hello");
}

#[test]
fn substring_search_agrees_with_occurrence() {
    assert!(contains_chars(&chars("text/html; charset=utf-8"), &chars("text/html")));
    assert!(!contains_chars(&chars("text/plain"), &chars("text/html")));
    assert!(contains_chars(&chars("abc"), &chars("")));
}

#[test]
fn relative_href_is_rewritten_through_the_proxy() {
    let out = rewrite_html("https://example.com/a/", "<a href=\"/x\">");
    assert_eq!(out, "<a href=\"http://localhost:5173/proxy?url=https://example.com/x\">");
}

#[test]
fn document_relative_reference_resolves_against_the_base_path() {
    let out = rewrite_html("https://example.com/a/", "<img src=\"p.png\">");
    assert_eq!(
        out,
        "<img src=\"http://localhost:5173/proxy?url=https://example.com/a/p.png\">",
    );
}

#[test]
fn protocol_relative_reference_keeps_the_base_scheme() {
    let out = rewrite_html("https://alice.com/a", "<script src=\"//eve.com/b\"></script>");
    assert_eq!(
        out,
        "<script src=\"http://localhost:5173/proxy?url=https://eve.com/b\"></script>",
    );
}

#[test]
fn absolute_reference_is_embedded_as_it_resolves() {
    let out = rewrite_html("https://example.com/", "<form action=\"http://other.example/p\">");
    assert_eq!(
        out,
        "<form action=\"http://localhost:5173/proxy?url=http://other.example/p\">",
    );
}

#[test]
fn single_quoted_attributes_are_left_unchanged() {
    let out = rewrite_html("https://example.com/a/", "<a href='/x'>");
    assert_eq!(out, "<a href='/x'>");
}

#[test]
fn identical_literals_collapse_to_one_rewritten_value() {
    let out = rewrite_html(
        "https://example.com/",
        "<img src=\"/i\"><iframe src=\"/i\"></iframe>",
    );
    assert_eq!(
        out,
        "<img src=\"http://localhost:5173/proxy?url=https://example.com/i\">\
         <iframe src=\"http://localhost:5173/proxy?url=https://example.com/i\"></iframe>",
    );
}

#[test]
fn every_row_of_the_table_is_applied() {
    let body = "<html><head><link href=\"/s.css\"><script src=\"/s.js\"></script></head>\
                <body><form action=\"/post\"></form><embed src=\"/e\">\
                <source src=\"/m\"></body></html>";
    let out = rewrite_html("https://example.com/", body);
    assert_eq!(
        out,
        "<html><head><link href=\"http://localhost:5173/proxy?url=https://example.com/s.css\">\
         <script src=\"http://localhost:5173/proxy?url=https://example.com/s.js\"></script></head>\
         <body><form action=\"http://localhost:5173/proxy?url=https://example.com/post\"></form>\
         <embed src=\"http://localhost:5173/proxy?url=https://example.com/e\">\
         <source src=\"http://localhost:5173/proxy?url=https://example.com/m\"></body></html>",
    );
}

#[test]
fn unparseable_base_leaves_the_document_unchanged() {
    let out = rewrite_html("not a url", "<a href=\"/x\">");
    assert_eq!(out, "<a href=\"/x\">");
}

#[test]
fn html_response_is_rewritten_with_success() {
    let r = proxy_response_result(
        String::from("11"),
        "https://example.com/a/",
        "text/html; charset=utf-8",
        b"<a href=\"/x\">".to_vec(),
    );
    assert!(r.success);
    assert_eq!(
        r.payload,
        "<a href=\"http://localhost:5173/proxy?url=https://example.com/x\">",
    );
}
