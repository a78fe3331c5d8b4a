//! Shields-style status badges: a JSON endpoint description and a small SVG.

use vstd::prelude::*;
use vstd::string::*;
use crate::json::{decimal, write_decimal};
use crate::text::{chars_of, push_char, same_text};

verus! {

/// A badge as the shields.io endpoint format describes it.
#[allow(non_snake_case)]
pub struct ShieldsBadge {
    pub schemaVersion: u8,
    pub label: String,
    pub message: String,
    pub color: String,
}

/// The counts of a test run that a badge shows.
pub struct TestSummary {
    pub total: u64,
    pub passed: u64,
    pub failed: u64,
}

impl ShieldsBadge {
    /// A badge of schema version 1.
    pub fn new(label: &str, message: &str, color: &str) -> (r: Self)
        ensures
            r.schemaVersion == 1,
            r.label@ == label@,
            r.message@ == message@,
            r.color@ == color@,
    {
        ShieldsBadge {
            schemaVersion: 1,
            label: String::from_str(label),
            message: String::from_str(message),
            color: String::from_str(color),
        }
    }
}

/// A red badge.
pub fn badge_error(label: &str, message: &str) -> (r: ShieldsBadge)
    ensures
        r.schemaVersion == 1,
        r.label@ == label@,
        r.message@ == message@,
        r.color@ == "red"@,
{
    ShieldsBadge::new(label, message, "red")
}

/// The provenance badge: green and "verified", or red and "unverified".
pub fn badge_provenance(verified: bool) -> (r: ShieldsBadge)
    ensures
        r.schemaVersion == 1,
        r.label@ == "provenance"@,
        r.message@ == (if verified { "verified"@ } else { "unverified"@ }),
        r.color@ == (if verified { "brightgreen"@ } else { "red"@ }),
{
    if verified {
        ShieldsBadge::new("provenance", "verified", "brightgreen")
    } else {
        ShieldsBadge::new("provenance", "unverified", "red")
    }
}

/// The colour of a test badge by the number of failures.
pub open spec fn tests_color(failed: u64) -> Seq<char> {
    if failed == 0 {
        "brightgreen"@
    } else if failed <= 2 {
        "orange"@
    } else {
        "red"@
    }
}

/// The tests badge: "<passed>/<total> passed".
pub fn badge_tests(summary: &TestSummary) -> (r: ShieldsBadge)
    ensures
        r.schemaVersion == 1,
        r.label@ == "tests"@,
        r.message@ == decimal(summary.passed as nat) + seq!['/'] + decimal(summary.total as nat)
            + " passed"@,
        r.color@ == tests_color(summary.failed),
{
    let mut message = String::new();
    write_decimal(&mut message, summary.passed);
    push_char(&mut message, '/');
    write_decimal(&mut message, summary.total);
    message.append(" passed");
    let color = if summary.failed == 0 {
        "brightgreen"
    } else if summary.failed <= 2 {
        "orange"
    } else {
        "red"
    };
    ShieldsBadge::new("tests", message.as_str(), color)
}

/// The SVG fill for a colour name; other names stand as they are.
pub open spec fn color_code(name: Seq<char>) -> Seq<char> {
    if name == "brightgreen"@ {
        "#4c1"@
    } else if name == "green"@ {
        "#97CA00"@
    } else if name == "yellow"@ {
        "#dfb317"@
    } else if name == "orange"@ {
        "#fe7d37"@
    } else if name == "red"@ {
        "#e05d44"@
    } else if name == "blue"@ {
        "#007ec6"@
    } else if name == "lightgrey"@ || name == "lightgray"@ {
        "#9f9f9f"@
    } else {
        name
    }
}

fn svg_color(name: &str) -> (r: String)
    ensures
        r@ == color_code(name@),
{
    if same_text(name, "brightgreen") {
        String::from_str("#4c1")
    } else if same_text(name, "green") {
        String::from_str("#97CA00")
    } else if same_text(name, "yellow") {
        String::from_str("#dfb317")
    } else if same_text(name, "orange") {
        String::from_str("#fe7d37")
    } else if same_text(name, "red") {
        String::from_str("#e05d44")
    } else if same_text(name, "blue") {
        String::from_str("#007ec6")
    } else if same_text(name, "lightgrey") || same_text(name, "lightgray") {
        String::from_str("#9f9f9f")
    } else {
        String::from_str(name)
    }
}

/// How badge text escapes one character: `&` and `<` only.
pub open spec fn badge_escape_char(c: char) -> Seq<char> {
    if c == '&' {
        "&amp;"@
    } else if c == '<' {
        "&lt;"@
    } else {
        seq![c]
    }
}

/// Badge text with `&` and `<` escaped.
pub open spec fn badge_escaped(s: Seq<char>) -> Seq<char>
    decreases s.len(),
{
    if s.len() == 0 {
        Seq::empty()
    } else {
        badge_escaped(s.drop_last()) + badge_escape_char(s.last())
    }
}

fn escape(s: &str) -> (r: String)
    ensures
        r@ == badge_escaped(s@),
{
    let cs = chars_of(s);
    let mut out = String::new();
    let mut i: usize = 0;
    while i < cs.len()
        invariant
            i <= cs.len(),
            cs@ == s@,
            out@ == badge_escaped(cs@.take(i as int)),
        decreases cs.len() - i,
    {
        let c = cs[i];
        if c == '&' {
            out.append("&amp;");
        } else if c == '<' {
            out.append("&lt;");
        } else {
            push_char(&mut out, c);
        }
        assert(cs@.take(i + 1).drop_last() =~= cs@.take(i as int));
        i = i + 1;
    }
    assert(cs@.take(i as int) =~= s@);
    out
}

/// The width of a badge half holding `n` bytes of text: six per byte and ten
/// more, at least forty.
pub open spec fn part_width(n: nat) -> nat {
    if n * 6 + 10 >= 40 {
        n * 6 + 10
    } else {
        40
    }
}

/// Width of the label half of a badge.
pub open spec fn label_width(b: &ShieldsBadge) -> nat {
    part_width(vstd::utf8::encode_utf8(b.label@).len())
}

/// Width of the message half of a badge.
pub open spec fn message_width(b: &ShieldsBadge) -> nat {
    part_width(vstd::utf8::encode_utf8(b.message@).len())
}

/// The SVG drawing of a badge.
pub open spec fn badge_svg(b: &ShieldsBadge) -> Seq<char> {
    let lw = label_width(b);
    let mw = message_width(b);
    let w = decimal(lw + mw);
    "<svg xmlns=\"http://www.w3.org/2000/svg\" width=\""@ + w + "\" height=\"20\"><linearGradient id=\"s\" x2=\"0\" y2=\"100%\"><stop offset=\"0\" stop-color=\"#bbb\" stop-opacity=\".1\"/><stop offset=\"1\" stop-opacity=\".1\"/></linearGradient><rect rx=\"3\" width=\""@
        + w + "\" height=\"20\" fill=\"#555\"/><rect rx=\"3\" x=\""@ + decimal(lw) + "\" width=\""@
        + decimal(mw) + "\" height=\"20\" fill=\""@ + color_code(b.color@)
        + "\"/><rect rx=\"3\" width=\""@ + w
        + "\" height=\"20\" fill=\"url(#s)\"/><g fill=\"#fff\" text-anchor=\"middle\" font-family=\"DejaVu Sans,Verdana,Geneva,sans-serif\" font-size=\"11\"><text x=\""@
        + decimal(lw / 2) + "\" y=\"14\">"@ + badge_escaped(b.label@) + "</text><text x=\""@
        + decimal(lw + mw / 2) + "\" y=\"14\">"@ + badge_escaped(b.message@)
        + "</text></g></svg>"@
}

/// Draws the badge as a flat SVG; the style is accepted and not interpreted.
pub fn to_svg(b: &ShieldsBadge, style: Option<&str>) -> (r: String)
    requires
        label_width(b) + message_width(b) <= u32::MAX,
    ensures
        r@ == badge_svg(b),
{
    let ln = b.label.as_str().len() as u64;
    let mn = b.message.as_str().len() as u64;
    let lw: u64 = if ln * 6 + 10 >= 40 { ln * 6 + 10 } else { 40 };
    let mw: u64 = if mn * 6 + 10 >= 40 { mn * 6 + 10 } else { 40 };
    let w = lw + mw;
    let mut out = String::new();
    out.append("<svg xmlns=\"http://www.w3.org/2000/svg\" width=\"");
    write_decimal(&mut out, w);
    out.append("\" height=\"20\"><linearGradient id=\"s\" x2=\"0\" y2=\"100%\"><stop offset=\"0\" stop-color=\"#bbb\" stop-opacity=\".1\"/><stop offset=\"1\" stop-opacity=\".1\"/></linearGradient><rect rx=\"3\" width=\"");
    write_decimal(&mut out, w);
    out.append("\" height=\"20\" fill=\"#555\"/><rect rx=\"3\" x=\"");
    write_decimal(&mut out, lw);
    out.append("\" width=\"");
    write_decimal(&mut out, mw);
    out.append("\" height=\"20\" fill=\"");
    let c = svg_color(b.color.as_str());
    out.append(c.as_str());
    out.append("\"/><rect rx=\"3\" width=\"");
    write_decimal(&mut out, w);
    out.append("\" height=\"20\" fill=\"url(#s)\"/><g fill=\"#fff\" text-anchor=\"middle\" font-family=\"DejaVu Sans,Verdana,Geneva,sans-serif\" font-size=\"11\"><text x=\"");
    write_decimal(&mut out, lw / 2);
    out.append("\" y=\"14\">");
    let le = escape(b.label.as_str());
    out.append(le.as_str());
    out.append("</text><text x=\"");
    write_decimal(&mut out, lw + mw / 2);
    out.append("\" y=\"14\">");
    let me = escape(b.message.as_str());
    out.append(me.as_str());
    out.append("</text></g></svg>");
    assert(out@ =~= badge_svg(b));
    out
}

} // verus!
