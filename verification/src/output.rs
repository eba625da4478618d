//! Writing `RawMessage` values incrementally as one JSON array.
//!
//! The writer hands out, call by call, the text to append to the output:
//! the opening `[`, each message's JSON with the separator before it, and
//! the closing `]`. Nothing is kept but the count, so memory stays constant
//! whatever the number of messages.
use vstd::prelude::*;

use crate::json::{compact_of, json_compact, json_pretty, pretty_of, quote, string_literal, utf8};
use crate::stream_reader::{payload_is_json, MessageModel, RawMessage};
use crate::text::{chars_of, decimal, decimal_string, push_char};

verus! {

/// What a newline turns into when a text is indented by two spaces.
pub open spec fn indent_piece(c: char) -> Seq<char> {
    if c == '\n' {
        seq!['\n', ' ', ' ']
    } else {
        seq![c]
    }
}

/// `text` with two spaces after every newline: each line but the first
/// indented by two spaces.
pub open spec fn indented(text: Seq<char>) -> Seq<char>
    decreases text.len(),
{
    if text.len() == 0 {
        seq![]
    } else {
        indented(text.drop_last()) + indent_piece(text.last())
    }
}

/// The compact JSON of a message whose payload is the compact JSON text
/// `payload`: the fields in the order subject, payload, timestamp (left out
/// when there is none) and sequence.
pub open spec fn compact_fields(m: MessageModel, payload: Seq<char>) -> Seq<char> {
    "{\"subject\":"@ + string_literal(m.subject) + ",\"payload\":"@ + payload + match m.timestamp {
        Some(t) => ",\"timestamp\":"@ + string_literal(t),
        None => seq![],
    } + ",\"sequence\":"@ + decimal(m.sequence as nat) + "}"@
}

/// The indented JSON of a message whose payload, written indented on its
/// own, is `payload`: one field per line, indented by two spaces, and the
/// payload's own lines indented one level further.
pub open spec fn pretty_fields(m: MessageModel, payload: Seq<char>) -> Seq<char> {
    "{\n  \"subject\": "@ + string_literal(m.subject) + ",\n  \"payload\": "@ + indented(payload)
        + match m.timestamp {
        Some(t) => ",\n  \"timestamp\": "@ + string_literal(t),
        None => seq![],
    } + ",\n  \"sequence\": "@ + decimal(m.sequence as nat) + "\n}"@
}

/// The compact JSON of a message, its payload read as JSON and written back
/// compactly; `None` when its payload is no JSON text.
pub open spec fn message_compact(m: MessageModel) -> Option<Seq<char>> {
    match json_compact(utf8(m.payload)) {
        Some(p) => Some(compact_fields(m, p)),
        None => None,
    }
}

/// The indented JSON of a message, its payload read as JSON and written
/// back indented; `None` when its payload is no JSON text.
pub open spec fn message_pretty(m: MessageModel) -> Option<Seq<char>> {
    if json_compact(utf8(m.payload)) is Some {
        Some(pretty_fields(m, json_pretty(utf8(m.payload))->0))
    } else {
        None
    }
}

/// A message as an element of the output array: its compact JSON, or, in
/// pretty mode, each line of its indented JSON indented by two spaces and
/// ended by a newline. `None` when the payload is no JSON text.
pub open spec fn entry_text(m: MessageModel, pretty: bool) -> Option<Seq<char>> {
    if pretty {
        match message_pretty(m) {
            Some(t) => Some("  "@ + indented(t) + "\n"@),
            None => None,
        }
    } else {
        message_compact(m)
    }
}

/// The text that opens the array.
pub open spec fn opening(pretty: bool) -> Seq<char> {
    if pretty {
        "[\n"@
    } else {
        "["@
    }
}

/// The text between two elements of the array.
pub open spec fn separator(pretty: bool) -> Seq<char> {
    if pretty {
        ",\n"@
    } else {
        ","@
    }
}

/// The text that closes the array.
pub open spec fn closing(pretty: bool) -> Seq<char> {
    if pretty {
        "]\n"@
    } else {
        "]"@
    }
}

/// The text written for the element at position `index`: the separator
/// unless it is the first, then the element.
pub open spec fn chunk_text(pretty: bool, index: nat, entry: Seq<char>) -> Seq<char> {
    if index == 0 {
        entry
    } else {
        separator(pretty) + entry
    }
}

/// The texts written for `entries`, one after the other.
pub open spec fn chunks(pretty: bool, entries: Seq<Seq<char>>) -> Seq<char>
    decreases entries.len(),
{
    if entries.len() == 0 {
        seq![]
    } else {
        chunks(pretty, entries.drop_last()) + chunk_text(
            pretty,
            (entries.len() - 1) as nat,
            entries.last(),
        )
    }
}

/// `items` joined by `sep`.
pub open spec fn join(items: Seq<Seq<char>>, sep: Seq<char>) -> Seq<char>
    decreases items.len(),
{
    if items.len() == 0 {
        seq![]
    } else if items.len() == 1 {
        items[0]
    } else {
        join(items.drop_last(), sep) + sep + items.last()
    }
}

/// The JSON array of `entries`: `[`, the entries joined by `,` and `]`; in
/// pretty mode the brackets and the separators are followed by a newline.
pub open spec fn array_text(pretty: bool, entries: Seq<Seq<char>>) -> Seq<char> {
    opening(pretty) + join(entries, separator(pretty)) + closing(pretty)
}

/// The summary reported when the array is closed.
pub open spec fn summary_text(count: nat, output_path: Seq<char>) -> Seq<char> {
    "Wrote "@ + decimal(count) + " messages to "@ + output_path
}

/// The reason a message cannot be written.
#[derive(Debug, Clone, Copy, PartialEq, Eq)]
pub enum OutputError {
    /// The message's payload is no JSON text.
    PayloadNotJson,
}

impl OutputError {
    /// The text by which this error is reported.
    pub fn message(&self) -> (r: String)
        ensures
            r@ == "payload is not a JSON document"@,
    {
        "payload is not a JSON document".to_owned()
    }
}

/// Two spaces after every newline of `text`.
pub fn indent_text(text: &str) -> (r: String)
    ensures
        r@ == indented(text@),
{
    let cs = chars_of(text);
    let mut out = String::new();
    let mut i: usize = 0;
    while i < cs.len()
        invariant
            i <= cs@.len(),
            cs@ == text@,
            out@ == indented(cs@.take(i as int)),
        decreases cs@.len() - i,
    {
        let c = cs[i];
        push_char(&mut out, c);
        if c == '\n' {
            push_char(&mut out, ' ');
            push_char(&mut out, ' ');
        }
        assert(cs@.take(i + 1).drop_last() =~= cs@.take(i as int));
        assert(out@ =~= indented(cs@.take(i + 1)));
        i = i + 1;
    }
    assert(cs@.take(i as int) =~= cs@);
    out
}

/// The compact JSON of a message's fields with `payload` as the payload's
/// text.
pub fn fields_json(m: &RawMessage, payload: &str) -> (r: String)
    ensures
        r@ == compact_fields(m@, payload@),
{
    let mut s = String::new();
    s.append("{\"subject\":");
    s.append(quote(m.subject.as_str()).as_str());
    s.append(",\"payload\":");
    s.append(payload);
    match &m.timestamp {
        Some(t) => {
            s.append(",\"timestamp\":");
            s.append(quote(t.as_str()).as_str());
        },
        None => {},
    }
    s.append(",\"sequence\":");
    s.append(decimal_string(m.sequence).as_str());
    s.append("}");
    s
}

/// The compact JSON of a message; `None` when its payload is no JSON text.
pub fn compact_message(m: &RawMessage) -> (r: Option<String>)
    ensures
        crate::json::opt_view(r) == message_compact(m@),
{
    match compact_of(m.payload.as_str().as_bytes()) {
        Some(payload) => Some(fields_json(m, payload.as_str())),
        None => None,
    }
}

/// The indented JSON of a message; `None` when its payload is no JSON text.
pub fn pretty_message(m: &RawMessage) -> (r: Option<String>)
    ensures
        crate::json::opt_view(r) == message_pretty(m@),
{
    match pretty_of(m.payload.as_str().as_bytes()) {
        Some(payload) => {
            let mut s = String::new();
            s.append("{\n  \"subject\": ");
            s.append(quote(m.subject.as_str()).as_str());
            s.append(",\n  \"payload\": ");
            s.append(indent_text(payload.as_str()).as_str());
            match &m.timestamp {
                Some(t) => {
                    s.append(",\n  \"timestamp\": ");
                    s.append(quote(t.as_str()).as_str());
                },
                None => {},
            }
            s.append(",\n  \"sequence\": ");
            s.append(decimal_string(m.sequence).as_str());
            s.append("\n}");
            Some(s)
        },
        None => None,
    }
}

/// A message as an element of the output array.
pub fn entry(m: &RawMessage, pretty: bool) -> (r: Option<String>)
    ensures
        crate::json::opt_view(r) == entry_text(m@, pretty),
{
    if pretty {
        match pretty_message(m) {
            Some(t) => {
                let mut s = String::new();
                s.append("  ");
                s.append(indent_text(t.as_str()).as_str());
                s.append("\n");
                Some(s)
            },
            None => None,
        }
    } else {
        compact_message(m)
    }
}

/// The elements of the messages `ms`, in order.
pub open spec fn entries_of(pretty: bool, ms: Seq<MessageModel>) -> Seq<Seq<char>>
    decreases ms.len(),
{
    if ms.len() == 0 {
        seq![]
    } else {
        entries_of(pretty, ms.drop_last()).push(entry_text(ms.last(), pretty)->0)
    }
}

/// The whole output of a writer that wrote the messages `ms`, in order, and
/// was closed: the JSON array of their elements. It depends on the layout
/// and the messages alone.
pub open spec fn run_output(pretty: bool, ms: Seq<MessageModel>) -> Seq<char> {
    array_text(pretty, entries_of(pretty, ms))
}

/// Writes `RawMessage` values incrementally as a valid JSON array.
///
/// `new` gives the opening `[`, `write` the text of each message with the
/// comma before it, and `finish` the closing `]` together with a summary.
/// The output path only appears in the summary.
pub struct JsonArrayWriter {
    count: u64,
    pretty: bool,
    output_path: String,
    messages: Ghost<Seq<MessageModel>>,
}

impl JsonArrayWriter {
    #[verifier::type_invariant]
    spec fn counted(self) -> bool {
        &&& self.count == self.messages@.len()
        &&& forall|i: int|
            0 <= i < self.messages@.len() ==> payload_is_json(#[trigger] self.messages@[i])
    }

    /// The messages written so far, in order.
    pub closed spec fn messages(&self) -> Seq<MessageModel> {
        self.messages@
    }

    /// The elements written so far.
    pub open spec fn entries(&self) -> Seq<Seq<char>> {
        entries_of(self.is_pretty(), self.messages())
    }

    /// Whether the output is indented.
    pub closed spec fn is_pretty(&self) -> bool {
        self.pretty
    }

    /// The output path named in the summary.
    pub closed spec fn path(&self) -> Seq<char> {
        self.output_path@
    }

    /// All text handed out so far: the opening and each element written.
    pub open spec fn emitted(&self) -> Seq<char> {
        opening(self.is_pretty()) + chunks(self.is_pretty(), self.entries())
    }

    /// Creates a writer; the text returned with it opens the array.
    ///
    /// The `output_path` is used only for the summary given by `finish`.
    pub fn new(pretty: bool, output_path: &str) -> (r: (JsonArrayWriter, String))
        ensures
            r.0.messages() == Seq::<MessageModel>::empty(),
            r.0.is_pretty() == pretty,
            r.0.path() == output_path@,
            r.1@ == opening(pretty),
            r.1@ == r.0.emitted(),
    {
        let opening_text = if pretty {
            "[\n".to_owned()
        } else {
            "[".to_owned()
        };
        let w = JsonArrayWriter {
            count: 0,
            pretty,
            output_path: output_path.to_owned(),
            messages: Ghost(Seq::empty()),
        };
        (w, opening_text)
    }

    /// The number of messages written so far.
    pub fn count(&self) -> (r: u64)
        ensures
            r == self.messages().len(),
            r == self.entries().len(),
    {
        proof {
            use_type_invariant(self);
            lemma_entries_len(self.pretty, self.messages@);
        }
        self.count
    }

    /// Writes a single message: the text returned is the comma before it
    /// (unless it is the first) and the message's JSON, so that all text
    /// handed out so far is `[` and the elements joined by commas. A message
    /// whose payload is JSON text is always written; one whose payload is
    /// not is refused, and nothing changes.
    pub fn write(&mut self, message: &RawMessage) -> (r: Result<String, OutputError>)
        requires
            old(self).messages().len() < u64::MAX,
        ensures
            final(self).is_pretty() == old(self).is_pretty(),
            final(self).path() == old(self).path(),
            payload_is_json(message@) <==> r is Ok,
            match entry_text(message@, old(self).is_pretty()) {
                Some(e) => r matches Ok(chunk) && chunk@ == chunk_text(
                    old(self).is_pretty(),
                    old(self).messages().len(),
                    e,
                ) && final(self).messages() == old(self).messages().push(message@)
                    && final(self).entries() == old(self).entries().push(e)
                    && final(self).emitted() == old(self).emitted() + chunk@
                    && final(self).emitted() == opening(final(self).is_pretty()) + join(
                    final(self).entries(),
                    separator(final(self).is_pretty()),
                ),
                None => r == Err::<String, OutputError>(OutputError::PayloadNotJson) && *final(self)
                    == *old(self),
            },
    {
        proof {
            use_type_invariant(&*self);
            lemma_entries_len(self.pretty, self.messages@);
        }
        match entry(message, self.pretty) {
            Some(e) => {
                let mut chunk = String::new();
                if self.count > 0 {
                    if self.pretty {
                        chunk.append(",\n");
                    } else {
                        chunk.append(",");
                    }
                }
                chunk.append(e.as_str());
                let ghost old_messages = self.messages@;
                let mut path = String::new();
                std::mem::swap(&mut path, &mut self.output_path);
                *self = JsonArrayWriter {
                    count: self.count + 1,
                    pretty: self.pretty,
                    output_path: path,
                    messages: Ghost(old_messages.push(message@)),
                };
                assert(self.messages@.drop_last() =~= old_messages);
                assert(self.entries() == old(self).entries().push(e@));
                proof {
                    lemma_entries_len(self.pretty, old_messages);
                    lemma_chunks_join(self.pretty, self.entries());
                }
                assert(self.entries().drop_last() =~= old(self).entries());
                assert(chunk@ == chunk_text(self.pretty, old(self).entries().len(), e@));
                assert(self.emitted() =~= old(self).emitted() + chunk@);
                Ok(chunk)
            },
            None => Err(OutputError::PayloadNotJson),
        }
    }

    /// Closes the array: gives the closing text and the summary to report,
    /// which names the number of messages written and the output path. All
    /// text handed out is the JSON array of the elements of the messages
    /// written, whatever the output path.
    pub fn finish(self) -> (r: (String, String))
        ensures
            r.0@ == closing(self.is_pretty()),
            r.1@ == summary_text(self.messages().len(), self.path()),
            self.emitted() + r.0@ == array_text(self.is_pretty(), self.entries()),
            self.emitted() + r.0@ == run_output(self.is_pretty(), self.messages()),
    {
        proof {
            use_type_invariant(&self);
            lemma_chunks_join(self.pretty, self.entries());
        }
        let closing_text = if self.pretty {
            "]\n".to_owned()
        } else {
            "]".to_owned()
        };
        let mut summary = String::new();
        summary.append("Wrote ");
        summary.append(decimal_string(self.count).as_str());
        summary.append(" messages to ");
        summary.append(self.output_path.as_str());
        (closing_text, summary)
    }
}

/// There is one element per message.
pub proof fn lemma_entries_len(pretty: bool, ms: Seq<MessageModel>)
    ensures
        entries_of(pretty, ms).len() == ms.len(),
    decreases ms.len(),
{
    if ms.len() > 0 {
        lemma_entries_len(pretty, ms.drop_last());
    }
}

/// Two writers with the same layout that wrote the same messages have
/// handed out the same text, whatever their output paths: the path shows
/// only in the summary.
pub proof fn law_output_ignores_path(w1: JsonArrayWriter, w2: JsonArrayWriter)
    requires
        w1.is_pretty() == w2.is_pretty(),
        w1.messages() == w2.messages(),
    ensures
        w1.emitted() == w2.emitted(),
        w1.emitted() + closing(w1.is_pretty()) == run_output(w1.is_pretty(), w1.messages()),
        w2.emitted() + closing(w2.is_pretty()) == run_output(w2.is_pretty(), w2.messages()),
{
    lemma_chunks_join(w1.is_pretty(), w1.entries());
}

/// The texts written for the elements are the elements joined by the
/// separator.
pub proof fn lemma_chunks_join(pretty: bool, entries: Seq<Seq<char>>)
    ensures
        chunks(pretty, entries) == join(entries, separator(pretty)),
    decreases entries.len(),
{
    if entries.len() > 0 {
        lemma_chunks_join(pretty, entries.drop_last());
    }
}

/// The texts handed out by a writer (the opening, what each write gives and
/// the closing) make up the JSON array of the elements written, whatever
/// they are.
pub proof fn law_written_text_is_array(pretty: bool, entries: Seq<Seq<char>>)
    ensures
        opening(pretty) + chunks(pretty, entries) + closing(pretty) == array_text(pretty, entries),
{
    lemma_chunks_join(pretty, entries);
}

} // verus!
