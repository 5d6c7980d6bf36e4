use thank_you_rocket::message::Message;
use thank_you_rocket::render::{join_lines, line_breaks_to_br, messages_html, paste_text_html};

#[test]
fn escaping_replaces_special_characters() {
    let html = |t: &str| paste_text_html(&t.to_string());
    assert_eq!(html("<b>\"a\" & 'b'</b>"), "&lt;b&gt;&quot;a&quot; &amp; &#x27;b&#x27;&lt;&#x2F;b&gt;");
    assert_eq!(html("plain text"), "plain text");
    assert_eq!(html(""), "");
}

#[test]
fn message_list_html() {
    let msgs = vec![
        Message { text: "hi <there>".to_string(), time_stamp: 1, user_hash: None },
        Message { text: "second".to_string(), time_stamp: 2, user_hash: None },
    ];
    assert_eq!(messages_html(&msgs), "hi &lt;there&gt;<br>second<br>");
    assert_eq!(messages_html(&vec![]), "");
    assert_eq!(join_lines(&vec!["a".to_string(), "b".to_string()]), "a<br>b<br>");
}

#[test]
fn line_breaks() {
    assert_eq!(line_breaks_to_br("a\r\nb\nc\rd"), "a<br>b<br>c\rd");
    assert_eq!(line_breaks_to_br("\r\r\n"), "\r<br>");
    assert_eq!(line_breaks_to_br(""), "");
    assert_eq!(paste_text_html(&"x < y\ny > z".to_string()), "x &lt; y<br>y &gt; z");
}
