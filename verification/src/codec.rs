//! The wire shape of the records exchanged with the agent.
//!
//! A record is one line. Its fields are separated by tabs; the first field
//! names the kind of record. Inside a field a backslash starts an escape:
//! `\\` stands for a backslash, `\n` for a line feed, `\r` for a carriage
//! return and `\t` for a tab, so that a field can carry any text and a record
//! never holds a raw line feed.
//!
//! Records from the agent:
//!
//! | first field        | further fields                         |
//! |--------------------|----------------------------------------|
//! | `ready`            |                                        |
//! | `message`          | text                                   |
//! | `approval_request` | id, kind (`exec` or `patch`), payload  |
//! | `exec_output`      | stream (`stdout` or `stderr`), data    |
//! | `patch_diff`       | approval id, diff                      |
//! | `session_end`      | reason                                 |
//! | `error`            | message                                |
//!
//! A record of any other kind is [`AgentEvent::Unrecognized`], and fields
//! beyond those listed are ignored, so that a newer agent can say more. A
//! record of a known kind that lacks a field, or holds a broken escape or an
//! unknown kind of approval or stream, cannot be decoded.
//!
//! Records for the agent: `user_message` with the text, `approval_response`
//! with the id and `approved` or `denied`, `pause`, `terminate`.

use crate::approval::ApprovalKind;
use crate::protocol::{AgentEvent, AgentSignal, CommandModel, EventModel, OutboundCommand};
use crate::protocol::{OutputStream, SignalModel};
use crate::text::{chars_of, pieces, push_char, same_chars, spans_of, split_spans};
use vstd::prelude::*;

verus! {

/// The character that separates the fields of a record.
pub open spec fn separator() -> char {
    '\t'
}

/// The character that starts an escape.
pub open spec fn escape_mark() -> char {
    '\\'
}

/// The character that follows the escape mark in place of `c`, if `c` has to
/// be escaped.
pub open spec fn escape_code(c: char) -> Option<char> {
    if c == '\\' {
        Some('\\')
    } else if c == '\n' {
        Some('n')
    } else if c == '\r' {
        Some('r')
    } else if c == '\t' {
        Some('t')
    } else {
        None
    }
}

/// The character for which `code` stands behind the escape mark.
pub open spec fn escaped_char(code: char) -> Option<char> {
    if code == '\\' {
        Some('\\')
    } else if code == 'n' {
        Some('\n')
    } else if code == 'r' {
        Some('\r')
    } else if code == 't' {
        Some('\t')
    } else {
        None
    }
}

/// The text `text` as it stands in a field.
pub open spec fn escape(text: Seq<char>) -> Seq<char>
    decreases text.len(),
{
    if text.len() == 0 {
        Seq::empty()
    } else {
        let head = match escape_code(text[0]) {
            Some(code) => seq![escape_mark(), code],
            None => seq![text[0]],
        };
        head + escape(text.skip(1))
    }
}

/// The text for which the field `field` stands, if every escape in it is
/// known and complete.
pub open spec fn unescape(field: Seq<char>) -> Option<Seq<char>>
    decreases field.len(),
{
    if field.len() == 0 {
        Some(Seq::empty())
    } else if field[0] != escape_mark() {
        match unescape(field.skip(1)) {
            Some(rest) => Some(seq![field[0]] + rest),
            None => None,
        }
    } else if field.len() < 2 {
        None
    } else {
        match (escaped_char(field[1]), unescape(field.skip(2))) {
            (Some(c), Some(rest)) => Some(seq![c] + rest),
            _ => None,
        }
    }
}

/// The fields of `line`, in order. A line without a separator is one field.
pub open spec fn fields(line: Seq<char>) -> Seq<Seq<char>> {
    pieces(line, separator())
}

/// The kind of approval that `word` names.
pub open spec fn kind_named(word: Seq<char>) -> Option<ApprovalKind> {
    if word == "exec"@ {
        Some(ApprovalKind::Execution)
    } else if word == "patch"@ {
        Some(ApprovalKind::Patch)
    } else {
        None
    }
}

/// The output stream that `word` names.
pub open spec fn stream_named(word: Seq<char>) -> Option<OutputStream> {
    if word == "stdout"@ {
        Some(OutputStream::Stdout)
    } else if word == "stderr"@ {
        Some(OutputStream::Stderr)
    } else {
        None
    }
}

/// The text of the field at position `at` of a record, if the record has
/// that field and its escapes are sound.
pub open spec fn text_field(record: Seq<Seq<char>>, at: int) -> Option<Seq<char>> {
    if 0 <= at < record.len() {
        unescape(record[at])
    } else {
        None
    }
}

/// The event for which a record with these fields stands, or `None` if the
/// record cannot be decoded.
pub open spec fn event_of(record: Seq<Seq<char>>) -> Option<EventModel>
    recommends
        record.len() > 0,
{
    let tag = record[0];
    if tag == "ready"@ {
        Some(EventModel::Ready)
    } else if tag == "message"@ {
        match text_field(record, 1) {
            Some(text) => Some(EventModel::MessageChunk { text }),
            None => None,
        }
    } else if tag == "approval_request"@ {
        match (text_field(record, 1), text_field(record, 2), text_field(record, 3)) {
            (Some(id), Some(word), Some(payload)) => match kind_named(word) {
                Some(kind) => Some(EventModel::ApprovalRequest { id, kind, payload }),
                None => None,
            },
            _ => None,
        }
    } else if tag == "exec_output"@ {
        match (text_field(record, 1), text_field(record, 2)) {
            (Some(word), Some(data)) => match stream_named(word) {
                Some(stream) => Some(EventModel::ExecOutput { stream, data }),
                None => None,
            },
            _ => None,
        }
    } else if tag == "patch_diff"@ {
        match (text_field(record, 1), text_field(record, 2)) {
            (Some(approval_id), Some(diff)) => Some(EventModel::PatchDiff { approval_id, diff }),
            _ => None,
        }
    } else if tag == "session_end"@ {
        match text_field(record, 1) {
            Some(reason) => Some(EventModel::SessionEnd { reason }),
            None => None,
        }
    } else if tag == "error"@ {
        match text_field(record, 1) {
            Some(message) => Some(EventModel::AgentError { message }),
            None => None,
        }
    } else {
        Some(EventModel::Unrecognized)
    }
}

/// The event for which the line `line` stands, or `None` if the line cannot
/// be decoded.
pub open spec fn decode(line: Seq<char>) -> Option<EventModel> {
    event_of(fields(line))
}

/// The line that stands for the command `command`.
pub open spec fn encode(command: CommandModel) -> Seq<char> {
    match command {
        CommandModel::UserMessage { text } => "user_message"@ + seq![separator()] + escape(text),
        CommandModel::ApprovalResponse { id, approved } => "approval_response"@ + seq![separator()]
            + escape(id) + seq![separator()] + (if approved {
            "approved"@
        } else {
            "denied"@
        }),
        CommandModel::Pause => "pause"@,
        CommandModel::Terminate => "terminate"@,
    }
}

/// What a line from the agent means to its session: the event for which it
/// stands, or that it cannot be decoded.
pub open spec fn signal_of_line(line: Seq<char>) -> SignalModel {
    match decode(line) {
        Some(event) => SignalModel::Event(event),
        None => SignalModel::Malformed,
    }
}

/// Escaping loses nothing: the text for which an escaped field stands is the
/// text that was escaped.
pub proof fn unescape_inverts_escape(text: Seq<char>)
    ensures
        unescape(escape(text)) == Some(text),
    decreases text.len(),
{
    if text.len() > 0 {
        let rest = escape(text.skip(1));
        unescape_inverts_escape(text.skip(1));
        match escape_code(text[0]) {
            Some(code) => {
                let field = seq![escape_mark(), code] + rest;
                assert(field.skip(2) =~= rest);
                assert(escaped_char(code) == Some(text[0]));
                assert(seq![text[0]] + text.skip(1) =~= text);
            },
            None => {
                let field = seq![text[0]] + rest;
                assert(field.skip(1) =~= rest);
                assert(seq![text[0]] + text.skip(1) =~= text);
            },
        }
    }
}

/// An escaped field holds neither a separator nor a line break.
pub proof fn escape_is_one_field(text: Seq<char>)
    ensures
        forall|i: int|
            0 <= i < escape(text).len() ==> #[trigger] escape(text)[i] != '\t' && escape(text)[i]
                != '\n' && escape(text)[i] != '\r',
    decreases text.len(),
{
    if text.len() > 0 {
        escape_is_one_field(text.skip(1));
        let head = match escape_code(text[0]) {
            Some(code) => seq![escape_mark(), code],
            None => seq![text[0]],
        };
        let rest = escape(text.skip(1));
        assert forall|i: int| 0 <= i < escape(text).len() implies #[trigger] escape(text)[i] != '\t'
            && escape(text)[i] != '\n' && escape(text)[i] != '\r' by {
            if i >= head.len() {
                assert(escape(text)[i] == rest[i - head.len()]);
            }
        }
    }
}

/// A command is written as one line: its record holds no line break.
pub proof fn encode_is_one_line(command: CommandModel)
    ensures
        !encode(command).contains('\n'),
{
    reveal_strlit("user_message");
    reveal_strlit("approval_response");
    reveal_strlit("approved");
    reveal_strlit("denied");
    reveal_strlit("pause");
    reveal_strlit("terminate");
    let line = encode(command);
    match command {
        CommandModel::UserMessage { text } => {
            escape_is_one_field(text);
            assert forall|i: int| 0 <= i < line.len() implies line[i] != '\n' by {
                let head = "user_message"@ + seq![separator()];
                if i >= head.len() {
                    assert(line[i] == escape(text)[i - head.len()]);
                }
            }
        },
        CommandModel::ApprovalResponse { id, approved } => {
            escape_is_one_field(id);
            assert forall|i: int| 0 <= i < line.len() implies line[i] != '\n' by {
                let head = "approval_response"@ + seq![separator()];
                let body = head + escape(id);
                if head.len() <= i < body.len() {
                    assert(line[i] == escape(id)[i - head.len()]);
                }
            }
        },
        CommandModel::Pause => {},
        CommandModel::Terminate => {},
    }
}

/// The fields `record`, written as one line with a separator between each
/// two.
pub open spec fn joined(record: Seq<Seq<char>>) -> Seq<char>
    decreases record.len(),
{
    if record.len() == 0 {
        Seq::empty()
    } else if record.len() == 1 {
        record[0]
    } else {
        record[0] + seq![separator()] + joined(record.skip(1))
    }
}

/// The word that names a kind of approval.
pub open spec fn kind_word(kind: ApprovalKind) -> Seq<char> {
    match kind {
        ApprovalKind::Execution => "exec"@,
        ApprovalKind::Patch => "patch"@,
    }
}

/// The word that names an output stream.
pub open spec fn stream_word(stream: OutputStream) -> Seq<char> {
    match stream {
        OutputStream::Stdout => "stdout"@,
        OutputStream::Stderr => "stderr"@,
    }
}

/// The fields of the record that an agent writes for `event`. An event of
/// a kind that this version does not know has no record of its own; the
/// empty record stands for it here.
pub open spec fn record_fields(event: EventModel) -> Seq<Seq<char>> {
    match event {
        EventModel::Ready => seq!["ready"@],
        EventModel::MessageChunk { text } => seq!["message"@, escape(text)],
        EventModel::ApprovalRequest { id, kind, payload } => seq![
            "approval_request"@,
            escape(id),
            kind_word(kind),
            escape(payload),
        ],
        EventModel::ExecOutput { stream, data } => seq![
            "exec_output"@,
            stream_word(stream),
            escape(data),
        ],
        EventModel::PatchDiff { approval_id, diff } => seq![
            "patch_diff"@,
            escape(approval_id),
            escape(diff),
        ],
        EventModel::SessionEnd { reason } => seq!["session_end"@, escape(reason)],
        EventModel::AgentError { message } => seq!["error"@, escape(message)],
        EventModel::Unrecognized => seq![Seq::empty()],
    }
}

/// The fields of the record that is written for `command`.
pub open spec fn command_fields(command: CommandModel) -> Seq<Seq<char>> {
    match command {
        CommandModel::UserMessage { text } => seq!["user_message"@, escape(text)],
        CommandModel::ApprovalResponse { id, approved } => seq![
            "approval_response"@,
            escape(id),
            if approved {
                "approved"@
            } else {
                "denied"@
            },
        ],
        CommandModel::Pause => seq!["pause"@],
        CommandModel::Terminate => seq!["terminate"@],
    }
}

/// Where a text without a separator is followed by a separator or by
/// nothing, the first piece is that text.
pub proof fn first_piece_is_prefix(head: Seq<char>, tail: Seq<char>)
    requires
        !head.contains(separator()),
        tail.len() == 0 || tail[0] == separator(),
    ensures
        crate::text::piece_end(head + tail, separator()) == head.len(),
    decreases head.len(),
{
    let line = head + tail;
    if head.len() == 0 {
        assert(line =~= tail);
    } else {
        assert(line[0] == head[0]);
        assert(head.contains(head[0]));
        assert(line.skip(1) =~= head.skip(1) + tail);
        assert forall|i: int| 0 <= i < head.skip(1).len() implies head.skip(1)[i]
            != separator() by {
            assert(head.contains(head[i + 1]));
        }
        first_piece_is_prefix(head.skip(1), tail);
    }
}

/// Cutting a line that was joined from fields without separators gives the
/// fields back.
pub proof fn fields_of_joined(record: Seq<Seq<char>>)
    requires
        record.len() > 0,
        forall|i: int| 0 <= i < record.len() ==> !(#[trigger] record[i]).contains(separator()),
    ensures
        fields(joined(record)) == record,
    decreases record.len(),
{
    let head = record[0];
    if record.len() == 1 {
        first_piece_is_prefix(head, Seq::empty());
        assert(head + Seq::<char>::empty() =~= head);
        assert(fields(head) =~= seq![head]);
        assert(seq![head] =~= record);
    } else {
        let rest = record.skip(1);
        let tail = seq![separator()] + joined(rest);
        let line = head + tail;
        assert(joined(record) =~= line);
        first_piece_is_prefix(head, tail);
        assert(line.take(head.len() as int) =~= head);
        assert(line.skip(head.len() as int + 1) =~= joined(rest));
        assert forall|i: int| 0 <= i < rest.len() implies !(#[trigger] rest[i]).contains(
            separator(),
        ) by {
            assert(rest[i] == record[i + 1]);
        }
        fields_of_joined(rest);
        assert(fields(line) =~= seq![head] + rest);
        assert(seq![head] + rest =~= record);
    }
}

/// An escaped text holds no separator.
pub proof fn escape_has_no_separator(text: Seq<char>)
    ensures
        !escape(text).contains(separator()),
{
    escape_is_one_field(text);
}

/// The fields of the records for events and commands hold no separator.
proof fn words_have_no_separator()
    ensures
        forall|event: EventModel, i: int|
            0 <= i < record_fields(event).len() ==> !(#[trigger] record_fields(
                event,
            )[i]).contains(separator()),
        forall|command: CommandModel, i: int|
            0 <= i < command_fields(command).len() ==> !(#[trigger] command_fields(
                command,
            )[i]).contains(separator()),
{
    reveal_strlit("ready");
    reveal_strlit("message");
    reveal_strlit("approval_request");
    reveal_strlit("exec_output");
    reveal_strlit("patch_diff");
    reveal_strlit("session_end");
    reveal_strlit("error");
    reveal_strlit("exec");
    reveal_strlit("patch");
    reveal_strlit("stdout");
    reveal_strlit("stderr");
    reveal_strlit("user_message");
    reveal_strlit("approval_response");
    reveal_strlit("approved");
    reveal_strlit("denied");
    reveal_strlit("pause");
    reveal_strlit("terminate");
    assert forall|text: Seq<char>| !(#[trigger] escape(text)).contains(separator()) by {
        escape_has_no_separator(text);
    }
    assert(!Seq::<char>::empty().contains(separator()));
}

/// A line of one field is that field.
pub proof fn joined_one(field: Seq<char>)
    ensures
        joined(seq![field]) == field,
{
}

/// A line of several fields is the first field, a separator, and the line of
/// the other fields.
pub proof fn joined_more(field: Seq<char>, rest: Seq<Seq<char>>)
    requires
        rest.len() > 0,
    ensures
        joined(seq![field] + rest) == field + seq![separator()] + joined(rest),
{
    let record = seq![field] + rest;
    assert(record.skip(1) =~= rest);
}

/// A text without an escape mark stands for itself.
pub proof fn plain_text_unescapes(text: Seq<char>)
    requires
        !text.contains(escape_mark()),
    ensures
        unescape(text) == Some(text),
    decreases text.len(),
{
    if text.len() > 0 {
        assert(text.contains(text[0]));
        assert forall|i: int| 0 <= i < text.skip(1).len() implies text.skip(1)[i]
            != escape_mark() by {
            assert(text.contains(text[i + 1]));
        }
        plain_text_unescapes(text.skip(1));
        assert(seq![text[0]] + text.skip(1) =~= text);
    } else {
        assert(text =~= Seq::empty());
    }
}

/// The words that name kinds of approval and output streams are read back
/// as what they name.
proof fn words_are_read_back()
    ensures
        forall|kind: ApprovalKind|
            unescape(#[trigger] kind_word(kind)) == Some(kind_word(kind)) && kind_named(
                kind_word(kind),
            ) == Some(kind),
        forall|stream: OutputStream|
            unescape(#[trigger] stream_word(stream)) == Some(stream_word(stream)) && stream_named(
                stream_word(stream),
            ) == Some(stream),
{
    reveal_strlit("exec");
    reveal_strlit("patch");
    reveal_strlit("stdout");
    reveal_strlit("stderr");
    assert("stdout"@[3] != "stderr"@[3]);
    plain_text_unescapes("exec"@);
    plain_text_unescapes("patch"@);
    plain_text_unescapes("stdout"@);
    plain_text_unescapes("stderr"@);
}

/// The words that name the kinds of record from the agent differ from each
/// other.
proof fn record_kinds_differ()
    ensures
        "message"@ != "ready"@,
        "approval_request"@ != "ready"@,
        "approval_request"@ != "message"@,
        "exec_output"@ != "ready"@,
        "exec_output"@ != "message"@,
        "exec_output"@ != "approval_request"@,
        "patch_diff"@ != "ready"@,
        "patch_diff"@ != "message"@,
        "patch_diff"@ != "approval_request"@,
        "patch_diff"@ != "exec_output"@,
        "session_end"@ != "ready"@,
        "session_end"@ != "message"@,
        "session_end"@ != "approval_request"@,
        "session_end"@ != "exec_output"@,
        "session_end"@ != "patch_diff"@,
        "error"@ != "ready"@,
        "error"@ != "message"@,
        "error"@ != "approval_request"@,
        "error"@ != "exec_output"@,
        "error"@ != "patch_diff"@,
        "error"@ != "session_end"@,
{
    reveal_strlit("ready");
    reveal_strlit("message");
    reveal_strlit("approval_request");
    reveal_strlit("exec_output");
    reveal_strlit("patch_diff");
    reveal_strlit("session_end");
    reveal_strlit("error");
    assert("ready"@.len() == 5);
    assert("message"@.len() == 7);
    assert("approval_request"@.len() == 16);
    assert("exec_output"@.len() == 11);
    assert("patch_diff"@.len() == 10);
    assert("session_end"@.len() == 11);
    assert("error"@.len() == 5);
    assert("ready"@[0] != "error"@[0]);
    assert("exec_output"@[0] != "session_end"@[0]);
}

/// A line in the shape of the record of an event decodes to that event:
/// decoding undoes what an agent does when it writes a record.
pub proof fn decode_reads_records(event: EventModel)
    requires
        !(event is Unrecognized),
    ensures
        decode(joined(record_fields(event))) == Some(event),
{
    words_have_no_separator();
    let record = record_fields(event);
    fields_of_joined(record);
    assert(decode(joined(record)) == event_of(record));
    record_kinds_differ();
    words_are_read_back();
    match event {
        EventModel::Ready => {},
        EventModel::MessageChunk { text } => {
            unescape_inverts_escape(text);
        },
        EventModel::ApprovalRequest { id, kind, payload } => {
            unescape_inverts_escape(id);
            unescape_inverts_escape(payload);
            assert(unescape(record[2]) == Some(kind_word(kind)));
        },
        EventModel::ExecOutput { stream, data } => {
            unescape_inverts_escape(data);
            assert(unescape(record[1]) == Some(stream_word(stream)));
        },
        EventModel::PatchDiff { approval_id, diff } => {
            unescape_inverts_escape(approval_id);
            unescape_inverts_escape(diff);
        },
        EventModel::SessionEnd { reason } => {
            unescape_inverts_escape(reason);
        },
        EventModel::AgentError { message } => {
            unescape_inverts_escape(message);
        },
        EventModel::Unrecognized => {},
    }
}

/// The line for a command is its fields, joined.
pub proof fn encode_joins_fields(command: CommandModel)
    ensures
        encode(command) == joined(command_fields(command)),
{
    let record = command_fields(command);
    match command {
        CommandModel::UserMessage { text } => {
            assert(record =~= seq!["user_message"@] + seq![escape(text)]);
            joined_one(escape(text));
            joined_more("user_message"@, seq![escape(text)]);
        },
        CommandModel::ApprovalResponse { id, approved } => {
            let word = if approved {
                "approved"@
            } else {
                "denied"@
            };
            assert(record =~= seq!["approval_response"@] + (seq![escape(id)] + seq![word]));
            joined_one(word);
            joined_more(escape(id), seq![word]);
            joined_more("approval_response"@, seq![escape(id)] + seq![word]);
            assert(joined(record) =~= encode(command));
        },
        CommandModel::Pause => {
            joined_one("pause"@);
        },
        CommandModel::Terminate => {
            joined_one("terminate"@);
        },
    }
}

/// No two commands are written as the same line, so the agent can tell what
/// it was sent.
pub proof fn encode_is_injective(a: CommandModel, b: CommandModel)
    requires
        encode(a) == encode(b),
    ensures
        a == b,
{
    words_have_no_separator();
    encode_joins_fields(a);
    encode_joins_fields(b);
    fields_of_joined(command_fields(a));
    fields_of_joined(command_fields(b));
    let fa = command_fields(a);
    let fb = command_fields(b);
    assert(fa == fb);
    reveal_strlit("user_message");
    reveal_strlit("approval_response");
    reveal_strlit("approved");
    reveal_strlit("denied");
    reveal_strlit("pause");
    reveal_strlit("terminate");
    assert(fa[0] == fb[0]);
    assert(fa.len() == fb.len());
    match (a, b) {
        (CommandModel::UserMessage { text: ta }, CommandModel::UserMessage { text: tb }) => {
            assert(fa[1] == fb[1]);
            unescape_inverts_escape(ta);
            unescape_inverts_escape(tb);
        },
        (
            CommandModel::ApprovalResponse { id: ia, approved: pa },
            CommandModel::ApprovalResponse { id: ib, approved: pb },
        ) => {
            assert(fa[1] == fb[1]);
            assert(fa[2] == fb[2]);
            unescape_inverts_escape(ia);
            unescape_inverts_escape(ib);
        },
        _ => {},
    }
}

/// Unescapes `chars[from..to]`.
fn unescape_range(chars: &Vec<char>, from: usize, to: usize) -> (text: Option<String>)
    requires
        from <= to <= chars.len(),
    ensures
        match unescape(chars@.subrange(from as int, to as int)) {
            Some(t) => text is Some && text->0@ == t,
            None => text is None,
        },
{
    let ghost field = chars@.subrange(from as int, to as int);
    let mut out = String::new();
    let mut i: usize = from;
    assert(field.skip(0) =~= field);
    while i < to
        invariant
            from <= i <= to <= chars.len(),
            field == chars@.subrange(from as int, to as int),
            unescape(field) == match unescape(field.skip(i - from)) {
                Some(rest) => Some(out@ + rest),
                None => None,
            },
        decreases to - i,
    {
        let ghost tail = field.skip(i - from);
        let ghost before = out@;
        let c = chars[i];
        assert(tail[0] == c);
        if c != '\\' {
            push_char(&mut out, c);
            i += 1;
            proof {
                assert(tail.skip(1) =~= field.skip(i - from));
                match unescape(tail.skip(1)) {
                    Some(rest) => {
                        assert(before + (seq![c] + rest) =~= out@ + rest);
                    },
                    None => {},
                }
            }
        } else {
            if i + 1 >= to {
                return None;
            }
            let code = chars[i + 1];
            assert(tail[1] == code);
            let plain = if code == '\\' {
                '\\'
            } else if code == 'n' {
                '\n'
            } else if code == 'r' {
                '\r'
            } else if code == 't' {
                '\t'
            } else {
                return None;
            };
            push_char(&mut out, plain);
            i += 2;
            proof {
                assert(tail.skip(2) =~= field.skip(i - from));
                match unescape(tail.skip(2)) {
                    Some(rest) => {
                        assert(before + (seq![plain] + rest) =~= out@ + rest);
                    },
                    None => {},
                }
            }
        }
    }
    assert(field.skip(i - from) =~= Seq::<char>::empty());
    assert(out@ + Seq::<char>::empty() =~= out@);
    Some(out)
}

/// Appends the escaped form of `text` to `line`.
fn push_escaped(line: &mut String, text: &str)
    ensures
        final(line)@ == old(line)@ + escape(text@),
{
    let chars = chars_of(text);
    let mut i: usize = 0;
    assert(chars@.skip(0) =~= chars@);
    while i < chars.len()
        invariant
            i <= chars.len(),
            chars@ == text@,
            old(line)@ + escape(chars@) == line@ + escape(chars@.skip(i as int)),
        decreases chars.len() - i,
    {
        let ghost tail = chars@.skip(i as int);
        let ghost before = line@;
        let c = chars[i];
        assert(tail[0] == c);
        assert(tail.skip(1) =~= chars@.skip(i as int + 1));
        if c == '\\' {
            push_char(line, '\\');
            push_char(line, '\\');
            assert(line@ + escape(tail.skip(1)) =~= before + (seq!['\\', '\\'] + escape(
                tail.skip(1),
            )));
        } else if c == '\n' {
            push_char(line, '\\');
            push_char(line, 'n');
            assert(line@ + escape(tail.skip(1)) =~= before + (seq!['\\', 'n'] + escape(
                tail.skip(1),
            )));
        } else if c == '\r' {
            push_char(line, '\\');
            push_char(line, 'r');
            assert(line@ + escape(tail.skip(1)) =~= before + (seq!['\\', 'r'] + escape(
                tail.skip(1),
            )));
        } else if c == '\t' {
            push_char(line, '\\');
            push_char(line, 't');
            assert(line@ + escape(tail.skip(1)) =~= before + (seq!['\\', 't'] + escape(
                tail.skip(1),
            )));
        } else {
            push_char(line, c);
            assert(line@ + escape(tail.skip(1)) =~= before + (seq![c] + escape(tail.skip(1))));
        }
        i += 1;
    }
    assert(chars@.skip(i as int) =~= Seq::<char>::empty());
    assert(line@ + Seq::<char>::empty() =~= line@);
}

/// The text that a user typed, as it stands in a field of a record.
pub fn escape_text(text: &str) -> (field: String)
    ensures
        field@ == escape(text@),
{
    let mut field = String::new();
    push_escaped(&mut field, text);
    assert(Seq::<char>::empty() + escape(text@) =~= escape(text@));
    field
}

/// The text for which a field of a record stands, or `None` if the field
/// holds an unknown or unfinished escape.
pub fn unescape_text(field: &str) -> (text: Option<String>)
    ensures
        match unescape(field@) {
            Some(t) => text is Some && text->0@ == t,
            None => text is None,
        },
{
    let chars = chars_of(field);
    assert(chars@.subrange(0, chars@.len() as int) =~= chars@);
    unescape_range(&chars, 0, chars.len())
}

/// The line that stands for `command`, without a line break at its end.
pub fn encode_command(command: &OutboundCommand) -> (line: String)
    ensures
        line@ == encode(command@),
{
    match command {
        OutboundCommand::UserMessage { text } => {
            let mut line = String::from_str("user_message");
            push_char(&mut line, '\t');
            push_escaped(&mut line, text.as_str());
            assert(line@ =~= encode(command@));
            line
        },
        OutboundCommand::ApprovalResponse { id, approved } => {
            let mut line = String::from_str("approval_response");
            push_char(&mut line, '\t');
            push_escaped(&mut line, id.as_str());
            push_char(&mut line, '\t');
            if *approved {
                line.append("approved");
            } else {
                line.append("denied");
            }
            assert(line@ =~= encode(command@));
            line
        },
        OutboundCommand::Pause => String::from_str("pause"),
        OutboundCommand::Terminate => String::from_str("terminate"),
    }
}

/// Whether the field `chars[from..to]` is the word `word`.
fn field_is(chars: &Vec<char>, from: usize, to: usize, word: &str) -> (same: bool)
    requires
        from <= to <= chars.len(),
    ensures
        same == (chars@.subrange(from as int, to as int) == word@),
{
    let wanted = chars_of(word);
    if to - from != wanted.len() {
        return false;
    }
    let mut k: usize = 0;
    while k < wanted.len()
        invariant
            from <= to <= chars.len(),
            to - from == wanted.len(),
            wanted@ == word@,
            k <= wanted.len(),
            forall|j: int| 0 <= j < k ==> chars@[from + j] == wanted@[j],
        decreases wanted.len() - k,
    {
        if chars[from + k] != wanted[k] {
            assert(chars@.subrange(from as int, to as int)[k as int] != wanted@[k as int]);
            return false;
        }
        k += 1;
    }
    assert(chars@.subrange(from as int, to as int) =~= wanted@);
    true
}

/// The text of the field at position `at`, if there is one and it is sound.
fn text_of_field(chars: &Vec<char>, spans: &Vec<(usize, usize)>, at: usize) -> (text: Option<
    String,
>)
    requires
        spans_of(spans@, chars@, separator()),
    ensures
        match text_field(fields(chars@), at as int) {
            Some(t) => text is Some && text->0@ == t,
            None => text is None,
        },
{
    if at >= spans.len() {
        return None;
    }
    let span = spans[at];
    unescape_range(chars, span.0, span.1)
}

/// The kind of approval that `word` names.
fn kind_of_word(word: &str) -> (kind: Option<ApprovalKind>)
    ensures
        kind == kind_named(word@),
{
    let chars = chars_of(word);
    if same_chars(&chars, &chars_of("exec")) {
        Some(ApprovalKind::Execution)
    } else if same_chars(&chars, &chars_of("patch")) {
        Some(ApprovalKind::Patch)
    } else {
        None
    }
}

/// The output stream that `word` names.
fn stream_of_word(word: &str) -> (stream: Option<OutputStream>)
    ensures
        stream == stream_named(word@),
{
    let chars = chars_of(word);
    if same_chars(&chars, &chars_of("stdout")) {
        Some(OutputStream::Stdout)
    } else if same_chars(&chars, &chars_of("stderr")) {
        Some(OutputStream::Stderr)
    } else {
        None
    }
}

/// Decodes one line from the agent, given without its line break.
///
/// Returns `None` exactly when the line cannot be decoded; a line of an
/// unknown kind decodes to [`AgentEvent::Unrecognized`].
pub fn decode_line(line: &str) -> (event: Option<AgentEvent>)
    ensures
        match decode(line@) {
            Some(e) => event is Some && event->0@ == e,
            None => event is None,
        },
{
    let chars = chars_of(line);
    let spans = split_spans(&chars, '\t');
    let ghost record = fields(chars@);
    let from = spans[0].0;
    let to = spans[0].1;
    assert(record[0] == chars@.subrange(from as int, to as int));
    if field_is(&chars, from, to, "ready") {
        Some(AgentEvent::Ready)
    } else if field_is(&chars, from, to, "message") {
        match text_of_field(&chars, &spans, 1) {
            Some(text) => Some(AgentEvent::MessageChunk { text }),
            None => None,
        }
    } else if field_is(&chars, from, to, "approval_request") {
        let id = text_of_field(&chars, &spans, 1);
        let word = text_of_field(&chars, &spans, 2);
        let payload = text_of_field(&chars, &spans, 3);
        match (id, word, payload) {
            (Some(id), Some(word), Some(payload)) => match kind_of_word(word.as_str()) {
                Some(kind) => Some(AgentEvent::ApprovalRequest { id, kind, payload }),
                None => None,
            },
            _ => None,
        }
    } else if field_is(&chars, from, to, "exec_output") {
        let word = text_of_field(&chars, &spans, 1);
        let data = text_of_field(&chars, &spans, 2);
        match (word, data) {
            (Some(word), Some(data)) => match stream_of_word(word.as_str()) {
                Some(stream) => Some(AgentEvent::ExecOutput { stream, data }),
                None => None,
            },
            _ => None,
        }
    } else if field_is(&chars, from, to, "patch_diff") {
        let approval_id = text_of_field(&chars, &spans, 1);
        let diff = text_of_field(&chars, &spans, 2);
        match (approval_id, diff) {
            (Some(approval_id), Some(diff)) => Some(AgentEvent::PatchDiff { approval_id, diff }),
            _ => None,
        }
    } else if field_is(&chars, from, to, "session_end") {
        match text_of_field(&chars, &spans, 1) {
            Some(reason) => Some(AgentEvent::SessionEnd { reason }),
            None => None,
        }
    } else if field_is(&chars, from, to, "error") {
        match text_of_field(&chars, &spans, 1) {
            Some(message) => Some(AgentEvent::AgentError { message }),
            None => None,
        }
    } else {
        Some(AgentEvent::Unrecognized)
    }
}

/// Reads one line from the agent, given without its line break, as what it
/// means to the session: the event for which it stands, or
/// [`AgentSignal::Malformed`] where it cannot be decoded.
pub fn signal_of(line: &str) -> (signal: AgentSignal)
    ensures
        signal@ == signal_of_line(line@),
{
    match decode_line(line) {
        Some(event) => AgentSignal::Event(event),
        None => AgentSignal::Malformed,
    }
}

} // verus!
