//! Text made safe to place in an HTML page: message lists and paste bodies.
use vstd::prelude::*;
use crate::message::{Message, MessageView};

verus! {

/// What `c` becomes in HTML-safe text: `&`, `<`, `>`, `"`, `'` and `/` turn
/// into entities, every other character stays.
pub open spec fn escape_char(c: char) -> Seq<char> {
    if c == '&' {
        "&amp;"@
    } else if c == '<' {
        "&lt;"@
    } else if c == '>' {
        "&gt;"@
    } else if c == '"' {
        "&quot;"@
    } else if c == '\'' {
        "&#x27;"@
    } else if c == '/' {
        "&#x2F;"@
    } else {
        seq![c]
    }
}

/// `s` with each character escaped.
pub open spec fn html_safe(s: Seq<char>) -> Seq<char>
    decreases s.len(),
{
    if s.len() == 0 {
        Seq::empty()
    } else {
        html_safe(s.drop_last()) + escape_char(s.last())
    }
}

/// Relies on html_escape's `encode_safe`, which replaces `&`, `<`, `>`, `"`,
/// `'` and `/` by `&amp;`, `&lt;`, `&gt;`, `&quot;`, `&#x27;` and `&#x2F;`
/// and keeps every other character.
#[verifier::external_body]
fn escape_html(s: &str) -> (r: String)
    ensures
        r@ == html_safe(s@),
{
    html_escape::encode_safe(s).into_owned()
}

/// The lines `lines`, each followed by a line break tag.
pub open spec fn br_joined(lines: Seq<Seq<char>>) -> Seq<char>
    decreases lines.len(),
{
    if lines.len() == 0 {
        Seq::empty()
    } else {
        br_joined(lines.drop_last()) + lines.last() + "<br>"@
    }
}

/// Joins already escaped lines, each followed by `<br>`.
pub fn join_lines(lines: &Vec<String>) -> (r: String)
    ensures
        r@ == br_joined(lines@.map_values(|l: String| l@)),
{
    let ghost lv = lines@.map_values(|l: String| l@);
    let mut out = String::new();
    let mut i: usize = 0;
    while i < lines.len()
        invariant
            i <= lines@.len(),
            lv == lines@.map_values(|l: String| l@),
            out@ == br_joined(lv.take(i as int)),
        decreases lines@.len() - i,
    {
        proof {
            assert(lv.take(i + 1).drop_last() =~= lv.take(i as int));
            assert(lv.take(i + 1).last() == lines@[i as int]@);
        }
        out.append(lines[i].as_str());
        out.append("<br>");
        i = i + 1;
    }
    assert(lv.take(i as int) =~= lv);
    out
}

/// The texts of `messages`, escaped.
pub open spec fn escaped_texts(messages: Seq<MessageView>) -> Seq<Seq<char>> {
    messages.map_values(|m: MessageView| html_safe(m.text))
}

/// The texts of `messages`, escaped, each followed by `<br>`.
pub fn messages_html(messages: &Vec<Message>) -> (r: String)
    ensures
        r@ == br_joined(escaped_texts(messages@.map_values(|m: Message| m@))),
{
    let mut lines: Vec<String> = Vec::new();
    let mut i: usize = 0;
    while i < messages.len()
        invariant
            i <= messages@.len(),
            lines@.len() == i,
            forall|k: int| 0 <= k < i ==> (#[trigger] lines@[k])@ == html_safe(messages@[k].text@),
        decreases messages@.len() - i,
    {
        lines.push(escape_html(messages[i].text.as_str()));
        i = i + 1;
    }
    assert(lines@.map_values(|l: String| l@) =~= escaped_texts(messages@.map_values(|m: Message| m@)));
    join_lines(&lines)
}

/// `s` with each CR LF pair and each remaining LF turned into `<br>`.
pub open spec fn newlines_to_br(s: Seq<char>) -> Seq<char>
    decreases s.len(),
{
    if s.len() == 0 {
        Seq::empty()
    } else if s.len() >= 2 && s[0] == '\r' && s[1] == '\n' {
        "<br>"@ + newlines_to_br(s.skip(2))
    } else if s[0] == '\n' {
        "<br>"@ + newlines_to_br(s.skip(1))
    } else {
        seq![s[0]] + newlines_to_br(s.skip(1))
    }
}

/// Turns each CR LF pair, and each remaining LF, of `s` into `<br>`.
pub fn line_breaks_to_br(s: &str) -> (r: String)
    ensures
        r@ == newlines_to_br(s@),
{
    let n = s.unicode_len();
    let mut out = String::new();
    let mut i: usize = 0;
    proof {
        assert(s@.skip(0) =~= s@);
        assert(out@ + newlines_to_br(s@) =~= newlines_to_br(s@));
    }
    while i < n
        invariant
            n == s@.len(),
            i <= n,
            out@ + newlines_to_br(s@.skip(i as int)) == newlines_to_br(s@),
        decreases n - i,
    {
        let ghost rest = s@.skip(i as int);
        let c = s.get_char(i);
        let pair = c == '\r' && i + 1 < n && s.get_char(i + 1) == '\n';
        let ghost before = out@;
        if pair {
            proof {
                assert(rest.skip(2) =~= s@.skip(i + 2));
            }
            out.append("<br>");
            i = i + 2;
            assert(before + ("<br>"@ + newlines_to_br(s@.skip(i as int))) =~= out@ + newlines_to_br(s@.skip(i as int)));
        } else if c == '\n' {
            proof {
                assert(rest.skip(1) =~= s@.skip(i + 1));
            }
            out.append("<br>");
            i = i + 1;
            assert(before + ("<br>"@ + newlines_to_br(s@.skip(i as int))) =~= out@ + newlines_to_br(s@.skip(i as int)));
        } else {
            proof {
                assert(rest.skip(1) =~= s@.skip(i + 1));
                assert(!(rest.len() >= 2 && rest[0] == '\r' && rest[1] == '\n'));
            }
            out.append(s.substring_char(i, i + 1));
            assert(s@.subrange(i as int, i + 1) =~= seq![c]);
            i = i + 1;
            assert(before + (seq![c] + newlines_to_br(s@.skip(i as int))) =~= out@ + newlines_to_br(s@.skip(i as int)));
        }
    }
    assert(s@.skip(n as int) =~= Seq::<char>::empty());
    assert(out@ + Seq::<char>::empty() =~= out@);
    out
}

/// A text paste as HTML: escaped, with its line breaks turned into `<br>`.
pub fn paste_text_html(text: &String) -> (r: String)
    ensures
        r@ == newlines_to_br(html_safe(text@)),
{
    let escaped = escape_html(text.as_str());
    line_breaks_to_br(escaped.as_str())
}

} // verus!
