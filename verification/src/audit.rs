//! Audit records of the requests the guard inspects.
use vstd::prelude::*;

use crate::json::{is_first_key, lemma_first_key_unique, opt_data, JsonData, JsonValue};
use crate::text::{
    decimal, decimal_text, is_blank, is_blank_text, lines_of, pad_left, padded_left, split_lines,
};

verus! {

/// A record representing a single logged event.
#[derive(Debug, Clone)]
pub struct AuditRecord {
    /// Timestamp of the event in RFC 3339 format.
    pub timestamp: String,
    /// Direction of traffic (e.g., client_to_server).
    pub direction: String,
    /// The JSON-RPC method of the message.
    pub method: Option<String>,
    /// The extracted tool or resource name.
    pub tool_name: Option<String>,
    /// The targeted arguments.
    pub arguments: Option<JsonValue>,
    /// The action taken (allowed, denied, approved).
    pub action: String,
}

/// How the audit log listing shows one line of the log.
#[derive(Debug)]
pub struct AuditLine {
    /// The summary line.
    pub summary: String,
    /// The arguments to show below it, if any.
    pub arguments: Option<JsonValue>,
}

/// The lines of an audit log that the listing shows, each with its index
/// among all the lines: blank lines are left out.
pub open spec fn listing(lines: Seq<Seq<char>>) -> Seq<(int, Seq<char>)>
    decreases lines.len(),
{
    if lines.len() == 0 {
        Seq::empty()
    } else {
        let earlier = listing(lines.drop_last());
        if is_blank_text(lines.last()) {
            earlier
        } else {
            earlier.push(((lines.len() - 1) as int, lines.last()))
        }
    }
}

/// The listing shows each line that is not blank, with its index among all
/// the lines, in order.
pub proof fn law_listing_shows_each_nonblank_line(lines: Seq<Seq<char>>)
    ensures
        forall|k: int|
            0 <= k < listing(lines).len() ==> {
                let (index, line) = #[trigger] listing(lines)[k];
                &&& 0 <= index < lines.len()
                &&& lines[index] == line
                &&& !is_blank_text(line)
            },
        forall|k: int, m: int|
            0 <= k < m < listing(lines).len() ==> #[trigger] listing(lines)[k].0 < #[trigger] listing(
                lines,
            )[m].0,
        forall|i: int|
            0 <= i < lines.len() && !is_blank_text(#[trigger] lines[i]) ==> exists|k: int|
                0 <= k < listing(lines).len() && listing(lines)[k].0 == i,
    decreases lines.len(),
{
    if lines.len() > 0 {
        let earlier = lines.drop_last();
        law_listing_shows_each_nonblank_line(earlier);
        assert forall|k: int| 0 <= k < listing(earlier).len() implies listing(earlier)[k].0 < lines.len()
            - 1 by {
            let (index, line) = listing(earlier)[k];
        }
        assert forall|i: int|
            0 <= i < lines.len() && !is_blank_text(#[trigger] lines[i]) implies exists|k: int|
                0 <= k < listing(lines).len() && listing(lines)[k].0 == i by {
            if i < lines.len() - 1 {
                assert(earlier[i] == lines[i]);
                let k = choose|k: int| 0 <= k < listing(earlier).len() && listing(earlier)[k].0 == i;
                assert(listing(lines)[k] == listing(earlier)[k]);
            } else {
                assert(listing(lines)[listing(earlier).len() as int].0 == i);
            }
        }
    }
}

/// The text of the field `key` of a log entry, and `?` where the entry has
/// no such field or its value is not a string.
pub open spec fn field_text(entry: JsonValue, key: Seq<char>) -> Seq<char> {
    match entry {
        JsonValue::Object(entries) => if exists|i: int| is_first_key(entries@, key, i) {
            let i = choose|i: int| is_first_key(entries@, key, i);
            match entries@[i].1 {
                JsonValue::Str(s) => s@,
                _ => "?"@,
            }
        } else {
            "?"@
        },
        _ => "?"@,
    }
}

/// The arguments of a log entry, where it has them and they are not `null`.
pub open spec fn shown_arguments(entry: JsonValue) -> Option<JsonData> {
    match entry {
        JsonValue::Object(entries) => if exists|i: int| is_first_key(entries@, "arguments"@, i) {
            let i = choose|i: int| is_first_key(entries@, "arguments"@, i);
            if entries@[i].1 is Null {
                None
            } else {
                Some(entries@[i].1.data())
            }
        } else {
            None
        },
        _ => None,
    }
}

/// The index of a line, right-aligned in four columns and bracketed.
pub open spec fn index_tag(index: nat) -> Seq<char> {
    "["@ + padded_left(decimal_text(index), 4) + "]"@
}

/// The summary of a log entry: index, timestamp, action right-aligned in
/// eight columns, method and tool.
pub open spec fn entry_summary(index: nat, entry: JsonValue) -> Seq<char> {
    index_tag(index) + " "@ + field_text(entry, "timestamp"@) + "  "@ + padded_left(
        field_text(entry, "action"@),
        8,
    ) + "  "@ + field_text(entry, "method"@) + "("@ + field_text(entry, "tool_name"@) + ")"@
}

/// Whether the first entry named `key` holds the JSON string `text`.
pub open spec fn has_text_field(entries: Seq<(String, JsonValue)>, key: Seq<char>, text: Seq<char>) -> bool {
    exists|k: int| is_first_key(entries, key, k) && (entries[k].1 matches JsonValue::Str(s) && s@ == text)
}

/// A field of a log entry is shown as its text when it is a string, and as
/// `?` when the entry has no such string field.
pub proof fn law_field_shown_as_written(entry: JsonValue, key: Seq<char>, text: Seq<char>)
    ensures
        (entry matches JsonValue::Object(entries) && has_text_field(entries@, key, text)) ==> field_text(entry, key) == text,
        !(entry is Object) ==> field_text(entry, key) == "?"@,
{
    if let JsonValue::Object(entries) = entry {
        if has_text_field(entries@, key, text) {
            let k = choose|k: int| is_first_key(entries@, key, k) && (entries@[k].1 matches JsonValue::Str(s) && s@ == text);
            let c = choose|c: int| is_first_key(entries@, key, c);
            lemma_first_key_unique(entries@, key, k, c);
        }
    }
}

/// The summary of an entry whose timestamp, action, method and tool name
/// are strings shows each of them as written: the index in brackets, the
/// timestamp, the action right-aligned in eight columns, then the method
/// with the tool in parentheses.
pub proof fn law_summary_shows_entry_fields(
    index: nat,
    entry: JsonValue,
    timestamp: Seq<char>,
    action: Seq<char>,
    method: Seq<char>,
    tool: Seq<char>,
)
    requires
        entry matches JsonValue::Object(entries) && has_text_field(entries@, "timestamp"@, timestamp)
            && has_text_field(entries@, "action"@, action) && has_text_field(entries@, "method"@, method)
            && has_text_field(entries@, "tool_name"@, tool),
    ensures
        entry_summary(index, entry) == index_tag(index) + " "@ + timestamp + "  "@ + padded_left(action, 8)
            + "  "@ + method + "("@ + tool + ")"@,
{
    law_field_shown_as_written(entry, "timestamp"@, timestamp);
    law_field_shown_as_written(entry, "action"@, action);
    law_field_shown_as_written(entry, "method"@, method);
    law_field_shown_as_written(entry, "tool_name"@, tool);
}

/// A text right-aligned in a field keeps the whole text at its end, after
/// nothing but spaces, and takes the width of the field or its own length,
/// whichever is more.
pub proof fn law_padding_keeps_text(s: Seq<char>, width: nat)
    ensures
        padded_left(s, width).len() == if s.len() < width { width } else { s.len() },
        padded_left(s, width).subrange(padded_left(s, width).len() - s.len(), padded_left(s, width).len() as int) == s,
        forall|i: int| 0 <= i < padded_left(s, width).len() - s.len() ==> #[trigger] padded_left(s, width)[i] == ' ',
{
    let p = padded_left(s, width);
    assert(p.subrange(p.len() - s.len(), p.len() as int) =~= s);
}

/// The summary of a line that is not JSON.
pub open spec fn unparseable_summary(index: nat, line: Seq<char>) -> Seq<char> {
    index_tag(index) + " (unparseable) "@ + line
}

/// The lines of the log `content` that the listing shows, with their
/// indices.
pub fn listed_lines(content: &str) -> (r: Vec<(usize, String)>)
    ensures
        r@.len() == listing(lines_of(content@)).len(),
        forall|i: int|
            0 <= i < r@.len() ==> (#[trigger] r@[i]).0 == listing(lines_of(content@))[i].0
                && r@[i].1@ == listing(lines_of(content@))[i].1,
{
    let lines = split_lines(content);
    let ghost all = lines_of(content@);
    let mut out: Vec<(usize, String)> = Vec::new();
    let mut i: usize = 0;
    while i < lines.len()
        invariant
            lines@.len() == all.len(),
            forall|j: int| 0 <= j < lines@.len() ==> #[trigger] lines@[j]@ == all[j],
            i <= all.len(),
            out@.len() == listing(all.take(i as int)).len(),
            forall|j: int|
                0 <= j < out@.len() ==> (#[trigger] out@[j]).0 == listing(all.take(i as int))[j].0
                    && out@[j].1@ == listing(all.take(i as int))[j].1,
        decreases all.len() - i,
    {
        let ghost earlier = listing(all.take(i as int));
        proof {
            assert(all.take(i + 1).drop_last() =~= all.take(i as int));
            assert(all.take(i + 1).last() == all[i as int]);
        }
        if !is_blank(lines[i].as_str()) {
            out.push((i, lines[i].clone()));
            proof {
                let now = listing(all.take(i + 1));
                assert(now == earlier.push((i as int, all[i as int])));
                assert forall|j: int| 0 <= j < out@.len() implies (#[trigger] out@[j]).0 == now[j].0
                    && out@[j].1@ == now[j].1 by {
                    if j < earlier.len() {
                    }
                }
            }
        }
        i = i + 1;
    }
    proof {
        assert(all.take(all.len() as int) =~= all);
    }
    out
}

/// The text of the field `key` of a log entry, or `?`.
fn field_or_unknown<'a>(entry: &'a JsonValue, key: &str) -> (r: &'a str)
    ensures
        r@ == field_text(*entry, key@),
{
    let found = entry.get(key);
    proof {
        if let JsonValue::Object(entries) = entry {
            if found is Some {
                let i = choose|i: int| is_first_key(entries@, key@, i) && *found->0 == entries@[i].1;
                let c = choose|c: int| is_first_key(entries@, key@, c);
                lemma_first_key_unique(entries@, key@, i, c);
            }
        }
    }
    match found {
        Some(v) => match v.as_str() {
            Some(s) => s,
            None => "?",
        },
        None => "?",
    }
}

/// How the audit log listing shows the line at `index`, where `entry` is
/// the line read as JSON and `None` where it is not JSON.
pub fn describe_audit_line(index: usize, line: &str, entry: Option<&JsonValue>) -> (r: AuditLine)
    ensures
        match entry {
            Some(e) => r.summary@ == entry_summary(index as nat, *e) && opt_data(r.arguments)
                == shown_arguments(*e),
            None => r.summary@ == unparseable_summary(index as nat, line@) && r.arguments is None,
        },
{
    let number = decimal(index);
    let mut summary = String::from_str("[");
    summary.append(pad_left(number.as_str(), 4).as_str());
    summary.append("]");
    match entry {
        None => {
            summary.append(" (unparseable) ");
            summary.append(line);
            AuditLine { summary, arguments: None }
        },
        Some(e) => {
            summary.append(" ");
            summary.append(field_or_unknown(e, "timestamp"));
            summary.append("  ");
            summary.append(pad_left(field_or_unknown(e, "action"), 8).as_str());
            summary.append("  ");
            summary.append(field_or_unknown(e, "method"));
            summary.append("(");
            summary.append(field_or_unknown(e, "tool_name"));
            summary.append(")");
            let found = e.get("arguments");
            proof {
                if let JsonValue::Object(entries) = e {
                    if found is Some {
                        let i = choose|i: int|
                            is_first_key(entries@, "arguments"@, i) && *found->0 == entries@[i].1;
                        let c = choose|c: int| is_first_key(entries@, "arguments"@, c);
                        lemma_first_key_unique(entries@, "arguments"@, i, c);
                    }
                }
            }
            let arguments = match found {
                Some(v) => if v.is_null() {
                    None
                } else {
                    Some(v.duplicate())
                },
                None => None,
            };
            AuditLine { summary, arguments }
        },
    }
}

} // verus!
