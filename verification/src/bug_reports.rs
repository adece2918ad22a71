//! Bug reports: reacting to a message with a ladybug posts the conversation around it
//! to the bug reports channel.
use vstd::prelude::*;

use crate::text::push_str;

verus! {

/// The ladybug emoji that asks for a report.
pub open spec fn ladybug() -> Seq<char> {
    "\u{1F41E}"@
}

/// Whether a reaction asks for a report: it is a ladybug, and the message now has
/// exactly one ladybug (so a report is made once).
pub fn is_report_request(emoji: &str, ladybugs: u64) -> (r: bool)
    ensures
        r == (emoji@ == ladybug() && ladybugs == 1),
{
    crate::text::str_eq(emoji, "\u{1F41E}") && ladybugs == 1
}

/// What a message shows in a report: its text, or `*empty message*`.
pub open spec fn shown_content(content: Seq<char>) -> Seq<char> {
    if content.len() == 0 {
        "*empty message*"@
    } else {
        content
    }
}

/// One field of a report: a title, a text, and whether it is inline.
#[derive(Debug, PartialEq, Eq)]
pub struct ReportField {
    pub name: String,
    pub value: String,
    pub inline: bool,
}

/// The field for the message at position `n` (from the oldest) written by `name`: the
/// third message is the reported one, marked with a link to it and in bold.
pub open spec fn field_name(n: int, name: Seq<char>, link: Seq<char>) -> Seq<char> {
    if n == 2 {
        name + " << bug occurred here "@ + link
    } else {
        name
    }
}

/// The text of that field.
pub open spec fn field_value(n: int, content: Seq<char>) -> Seq<char> {
    if n == 2 {
        "**"@ + shown_content(content) + "**"@
    } else {
        shown_content(content)
    }
}

/// The fields of a report from the messages around the reported one, as discord gives
/// them (newest first), each as its author's name and its text: oldest first, each
/// message a field; none inline.
pub fn report_fields(messages: &Vec<(String, String)>, link: &str) -> (r: Vec<ReportField>)
    ensures
        r@.len() == messages@.len(),
        forall|n: int|
            0 <= n < r@.len() ==> {
                let m = messages@[messages@.len() - 1 - n];
                &&& (#[trigger] r@[n]).name@ == field_name(n, m.0@, link@)
                &&& r@[n].value@ == field_value(n, m.1@)
                &&& !r@[n].inline
            },
{
    let len = messages.len();
    let mut out: Vec<ReportField> = Vec::new();
    for n in 0..len
        invariant
            len == messages@.len(),
            out@.len() == n,
            forall|k: int|
                0 <= k < n ==> {
                    let m = messages@[messages@.len() - 1 - k];
                    &&& (#[trigger] out@[k]).name@ == field_name(k, m.0@, link@)
                    &&& out@[k].value@ == field_value(k, m.1@)
                    &&& !out@[k].inline
                },
    {
        let m = &messages[len - 1 - n];
        let mut name = String::new();
        push_str(&mut name, m.0.as_str());
        if n == 2 {
            push_str(&mut name, " << bug occurred here ");
            push_str(&mut name, link);
        }
        let mut value = String::new();
        if n == 2 {
            push_str(&mut value, "**");
        }
        let text = crate::text::chars_of(m.1.as_str());
        if text.len() == 0 {
            push_str(&mut value, "*empty message*");
        } else {
            push_str(&mut value, m.1.as_str());
        }
        if n == 2 {
            push_str(&mut value, "**");
        }
        assert(name@ =~= field_name(n as int, m.0@, link@));
        assert(value@ =~= field_value(n as int, m.1@));
        out.push(ReportField { name, value, inline: false });
    }
    out
}

/// The fixed parts of a report: its title, description, thumbnail, color and footer.
#[derive(Debug)]
pub struct ReportFrame {
    pub title: String,
    pub description: String,
    pub thumbnail: String,
    pub color: u32,
    pub footer: String,
}

/// The fixed parts of a report: `bug report!`, how to make one, a bug picture, red
/// (`#DD2E44`), and `slimebot` at the foot.
pub fn report_frame() -> (r: ReportFrame)
    ensures
        r.title@ == "bug report!"@,
        r.description@ == "react to a message with \u{1F41E} to generate one of these reports!\n\n            report context:"@,
        r.thumbnail@ == "https://files.catbox.moe/0v4p11.png"@,
        r.color == 0xDD2E44,
        r.footer@ == "slimebot"@,
{
    let mut title = String::new();
    push_str(&mut title, "bug report!");
    let mut description = String::new();
    push_str(
        &mut description,
        "react to a message with \u{1F41E} to generate one of these reports!\n\n            report context:",
    );
    let mut thumbnail = String::new();
    push_str(&mut thumbnail, "https://files.catbox.moe/0v4p11.png");
    let mut footer = String::new();
    push_str(&mut footer, "slimebot");
    ReportFrame { title, description, thumbnail, color: 0xDD2E44, footer }
}

} // verus!
