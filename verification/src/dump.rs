//! The `dump` subcommand's decisions: reading the filter argument, how
//! progress is shown, and, message by message, what is written.
//!
//! The surrounding program connects to NATS, reads the messages and writes
//! the texts handed out here; a `DumpSession` decides for each message
//! whether it goes into the output and what the progress line says.
use vstd::prelude::*;

use crate::args::DumpArgs;
use crate::filter::{count_selects, filter_document, selects_by_count, FilterError, MessageFilter};
use crate::output::{array_text, closing, entry_text, summary_text, JsonArrayWriter};
use crate::stream_reader::{Error, MessageModel, RawMessage};
use crate::text::{decimal, decimal_string};

verus! {

/// The outcome of reading the `--filter` argument, given what compiling
/// the expression gave: the filter, or an error naming why the expression
/// is refused.
pub fn filter_outcome(compiled: Result<MessageFilter, FilterError>) -> (r: Result<
    Option<MessageFilter>,
    Error,
>)
    ensures
        match compiled {
            Ok(f) => r == Ok::<Option<MessageFilter>, Error>(Some(f)),
            Err(FilterError::InvalidExpression(reason)) => r matches Err(Error::Message(t)) && t@
                == "Invalid filter expression: "@ + reason@,
        },
{
    match compiled {
        Ok(f) => Ok(Some(f)),
        Err(FilterError::InvalidExpression(reason)) => {
            let mut text = String::new();
            text.append("Invalid filter expression: ");
            text.append(reason.as_str());
            Err(Error::Message(text))
        },
    }
}

/// Reads the optional `--filter` argument: no filter when there is none,
/// and otherwise the compiled filter for the expression, or an error
/// naming why the expression is refused.
pub fn parse_filter(args: &DumpArgs) -> (r: Result<Option<MessageFilter>, Error>)
    ensures
        match args.filter {
            None => r matches Ok(None),
            Some(e) => match r {
                Ok(Some(f)) => f.expression() == e@,
                Ok(None) => false,
                Err(Error::Message(t)) => exists|reason: Seq<char>|
                    t@ == "Invalid filter expression: "@ + reason,
                Err(_) => false,
            },
        },
{
    match &args.filter {
        None => Ok(None),
        Some(expression) => {
            let compiled = MessageFilter::new(expression.as_str());
            let ghost reason = match &compiled {
                Err(FilterError::InvalidExpression(x)) => x@,
                Ok(_) => Seq::empty(),
            };
            let r = filter_outcome(compiled);
            assert(r matches Err(Error::Message(t)) ==> t@ == "Invalid filter expression: "@
                + reason);
            r
        },
    }
}

/// The label of the output in the summary: the output path, or `stdout`.
pub fn output_label(output: &Option<String>) -> (r: String)
    ensures
        match output {
            Some(p) => r@ == p@,
            None => r@ == "stdout"@,
        },
{
    match output {
        Some(p) => p.clone(),
        None => "stdout".to_owned(),
    }
}

/// How progress is shown.
#[derive(Debug, Clone, PartialEq, Eq)]
pub enum ProgressPlan {
    /// Nothing is shown: the output goes to standard output.
    Hidden,
    /// A bar counting up to `total` messages, drawn with `template` and
    /// `progress_chars`, with `message` shown first when there is one.
    Bar { total: u64, template: String, progress_chars: String, message: Option<String> },
}

/// The bar's template without a filter.
pub open spec fn plain_template() -> Seq<char> {
    "[{bar:40}] {pos}/{len} messages ({per_sec})"@
}

/// The bar's template with a filter: it also shows the matched count.
pub open spec fn filter_template() -> Seq<char> {
    "[{bar:40}] {pos}/{len} messages ({msg}) ({per_sec})"@
}

/// The progress line's message after `n` messages have matched.
pub open spec fn matched_text(n: nat) -> Seq<char> {
    decimal(n) + " matched"@
}

/// The progress display: none when writing to standard output (it would
/// corrupt the JSON there); otherwise a bar up to `total`, whose template
/// shows the matched count when a filter is active, starting at
/// `0 matched`.
pub fn progress_plan(writing_to_file: bool, total: u64, has_filter: bool) -> (r: ProgressPlan)
    ensures
        !writing_to_file ==> r == ProgressPlan::Hidden,
        writing_to_file ==> (r matches ProgressPlan::Bar { total: t, template, progress_chars, message }
            && t == total && progress_chars@ == "=> "@ && (if has_filter {
            template@ == filter_template() && (message matches Some(m) && m@ == matched_text(0))
        } else {
            template@ == plain_template() && message is None
        })),
{
    if !writing_to_file {
        return ProgressPlan::Hidden;
    }
    if has_filter {
        ProgressPlan::Bar {
            total,
            template: "[{bar:40}] {pos}/{len} messages ({msg}) ({per_sec})".to_owned(),
            progress_chars: "=> ".to_owned(),
            message: Some(matched_message(0)),
        }
    } else {
        ProgressPlan::Bar {
            total,
            template: "[{bar:40}] {pos}/{len} messages ({per_sec})".to_owned(),
            progress_chars: "=> ".to_owned(),
            message: None,
        }
    }
}

/// The progress line's message after `n` messages have matched.
pub fn matched_message(n: u64) -> (r: String)
    ensures
        r@ == matched_text(n as nat),
{
    let mut s = decimal_string(n);
    s.append(" matched");
    s
}

/// A handled message, with whether it was selected for the output.
pub type Handled = (MessageModel, bool);

/// The output elements for the handled messages `hs`, in order: those of
/// the selected messages.
pub open spec fn dump_entries(pretty: bool, hs: Seq<Handled>) -> Seq<Seq<char>>
    decreases hs.len(),
{
    if hs.len() == 0 {
        seq![]
    } else {
        let rest = dump_entries(pretty, hs.drop_last());
        if hs.last().1 {
            rest.push(entry_text(hs.last().0, pretty)->0)
        } else {
            rest
        }
    }
}

/// What to do for one message.
#[derive(Debug, Clone, PartialEq, Eq)]
pub struct MessageStep {
    /// The text to append to the output, when the message is written.
    pub output: Option<String>,
    /// The new message of the progress line, when it changes.
    pub progress_message: Option<String>,
}

/// The state of a dump: the filter, the output writer and the messages
/// handled so far, each with whether it was selected.
pub struct DumpSession {
    filter: Option<MessageFilter>,
    writer: JsonArrayWriter,
    handled: u64,
    seen: Ghost<Seq<Handled>>,
}

/// How handling `m` with the selection decision `selected` takes a
/// session from `old` to `new` with the result `r`: a message that is not
/// selected is passed over; a selected one is written (the step gives the
/// text to append) and, with a filter, the progress line shows the new
/// matched count; a selected message whose payload is no JSON text cannot
/// be written, and then the dump fails and nothing changes.
pub open spec fn handling(
    old: DumpSession,
    new: DumpSession,
    m: MessageModel,
    selected: bool,
    r: Result<MessageStep, Error>,
) -> bool {
    &&& new.filter_expression() == old.filter_expression()
    &&& new.is_pretty() == old.is_pretty()
    &&& new.label() == old.label()
    &&& if !selected {
        &&& r matches Ok(step)
        &&& step.output is None
        &&& step.progress_message is None
        &&& new.seen() == old.seen().push((m, false))
        &&& new.emitted() == old.emitted()
    } else {
        match entry_text(m, old.is_pretty()) {
            Some(e) => {
                &&& r matches Ok(step)
                &&& step.output matches Some(text)
                &&& new.emitted() == old.emitted() + text@
                &&& new.seen() == old.seen().push((m, true))
                &&& match old.filter_expression() {
                    Some(_) => step.progress_message matches Some(p) && p@ == matched_text(
                        dump_entries(new.is_pretty(), new.seen()).len(),
                    ),
                    None => step.progress_message is None,
                }
            },
            None => {
                &&& r matches Err(Error::Message(t))
                &&& t@ == "Failed to write message: "@ + "payload is not a JSON document"@
                &&& new == old
            },
        }
    }
}

impl DumpSession {
    /// The session's consistency: the writer holds the elements of the
    /// selected messages among those handled, `handled` counts them all,
    /// and without a filter every message is selected.
    pub closed spec fn wf(&self) -> bool {
        &&& self.handled == self.seen@.len()
        &&& self.writer.entries() == dump_entries(self.writer.is_pretty(), self.seen@)
        &&& self.writer.entries().len() <= self.seen@.len()
        &&& self.filter is None ==> forall|i: int| 0 <= i < self.seen@.len() ==> #[trigger] self.seen@[i].1
    }

    /// The filter's expression, if there is a filter.
    pub closed spec fn filter_expression(&self) -> Option<Seq<char>> {
        match self.filter {
            Some(f) => Some(f.expression()),
            None => None,
        }
    }

    /// The messages handled so far, in order, each with whether it was
    /// selected.
    pub closed spec fn seen(&self) -> Seq<Handled> {
        self.seen@
    }

    /// Whether the output is indented.
    pub closed spec fn is_pretty(&self) -> bool {
        self.writer.is_pretty()
    }

    /// The label of the output.
    pub closed spec fn label(&self) -> Seq<char> {
        self.writer.path()
    }

    /// All output text handed out so far.
    pub closed spec fn emitted(&self) -> Seq<char> {
        self.writer.emitted()
    }

    /// Starts a dump; the text returned opens the output array.
    pub fn start(filter: Option<MessageFilter>, pretty: bool, output_label: &str) -> (r: (
        DumpSession,
        String,
    ))
        ensures
            r.0.wf(),
            r.0.seen() == Seq::<Handled>::empty(),
            r.0.filter_expression() == match filter {
                Some(f) => Some(f.expression()),
                None => None,
            },
            r.0.is_pretty() == pretty,
            r.0.label() == output_label@,
            r.1@ == r.0.emitted(),
            r.1@ == crate::output::opening(pretty),
    {
        let (writer, opening) = JsonArrayWriter::new(pretty, output_label);
        let session = DumpSession { filter, writer, handled: 0, seen: Ghost(Seq::empty()) };
        (session, opening)
    }

    /// The number of messages handled so far.
    pub fn handled(&self) -> (r: u64)
        requires
            self.wf(),
        ensures
            r == self.seen().len(),
    {
        self.handled
    }

    /// Handles one message, given what the filter's query gave for it
    /// (`MessageFilter::match_count`): without a filter the message is
    /// selected, and with one it is selected when the query selected a
    /// node (`count_selects`).
    pub fn on_counted(&mut self, message: &RawMessage, count: Option<usize>) -> (r: Result<
        MessageStep,
        Error,
    >)
        requires
            old(self).wf(),
            old(self).seen().len() < u64::MAX,
        ensures
            final(self).wf(),
            handling(
                *old(self),
                *final(self),
                message@,
                old(self).filter_expression() is None || count_selects(count),
                r,
            ),
    {
        let selected = match &self.filter {
            Some(_) => selects_by_count(count),
            None => true,
        };
        let ghost old_seen = self.seen@;
        proof {
            crate::output::lemma_entries_len(self.writer.is_pretty(), self.writer.messages());
        }
        if !selected {
            self.handled = self.handled + 1;
            self.seen = Ghost(old_seen.push((message@, false)));
            assert(self.seen@.drop_last() =~= old_seen);
            return Ok(MessageStep { output: None, progress_message: None });
        }
        assert(self.writer.entries().len() < u64::MAX);
        match self.writer.write(message) {
            Ok(text) => {
                self.handled = self.handled + 1;
                self.seen = Ghost(old_seen.push((message@, true)));
                assert(self.seen@.drop_last() =~= old_seen);
                let progress_message = if self.filter.is_some() {
                    Some(matched_message(self.writer.count()))
                } else {
                    None
                };
                Ok(MessageStep { output: Some(text), progress_message })
            },
            Err(e) => {
                let mut t = String::new();
                t.append("Failed to write message: ");
                t.append(e.message().as_str());
                Err(Error::Message(t))
            },
        }
    }

    /// Handles one message: without a filter it is selected, and with one
    /// it is selected when the filter's query selects a node of the
    /// message's document (`MessageFilter::match_count`); then it is
    /// handled as `handling` states for that decision.
    pub fn on_message(&mut self, message: &RawMessage) -> (r: Result<MessageStep, Error>)
        requires
            old(self).wf(),
            old(self).seen().len() < u64::MAX,
        ensures
            final(self).wf(),
            old(self).filter_expression() is None ==> handling(*old(self), *final(self), message@, true, r),
            filter_document(message@) is None ==> handling(
                *old(self),
                *final(self),
                message@,
                old(self).filter_expression() is None,
                r,
            ),
            exists|selected: bool| handling(*old(self), *final(self), message@, selected, r),
    {
        let count = match &self.filter {
            Some(f) => f.match_count(message),
            None => None,
        };
        let ghost before = *self;
        let r = self.on_counted(message, count);
        let ghost selected = before.filter_expression() is None || count_selects(count);
        assert(handling(before, *self, message@, selected, r));
        r
    }

    /// Ends the dump: gives the text that closes the output array and the
    /// summary naming how many messages were written and where.
    pub fn finish(self) -> (r: (String, String))
        requires
            self.wf(),
        ensures
            r.0@ == closing(self.is_pretty()),
            r.1@ == summary_text(dump_entries(self.is_pretty(), self.seen()).len(), self.label()),
            self.emitted() + r.0@ == array_text(
                self.is_pretty(),
                dump_entries(self.is_pretty(), self.seen()),
            ),
    {
        proof {
            crate::output::lemma_entries_len(self.writer.is_pretty(), self.writer.messages());
        }
        self.writer.finish()
    }
}

/// A dump is streamed: the elements for the messages of two stretches
/// handled one after the other are those of the first stretch followed by
/// those of the second, so each message's fate depends on it alone.
pub proof fn law_dump_streams(pretty: bool, first: Seq<Handled>, second: Seq<Handled>)
    ensures
        dump_entries(pretty, first + second) == dump_entries(pretty, first) + dump_entries(
            pretty,
            second,
        ),
    decreases second.len(),
{
    if second.len() == 0 {
        assert(first + second =~= first);
        assert(dump_entries(pretty, first) + seq![] =~= dump_entries(pretty, first));
    } else {
        law_dump_streams(pretty, first, second.drop_last());
        assert((first + second).drop_last() =~= first + second.drop_last());
        assert((first + second).last() == second.last());
        let a = dump_entries(pretty, first);
        let b = dump_entries(pretty, second.drop_last());
        if second.last().1 {
            assert((a + b).push(entry_text(second.last().0, pretty)->0) =~= a + b.push(
                entry_text(second.last().0, pretty)->0,
            ));
        }
    }
}

/// Without a filter nothing is left out: when every message handled was
/// selected, the dump holds one element per message, the message's own
/// element, in the order handled.
pub proof fn law_unfiltered_dump_keeps_all(pretty: bool, hs: Seq<Handled>)
    requires
        forall|i: int| 0 <= i < hs.len() ==> #[trigger] hs[i].1,
    ensures
        dump_entries(pretty, hs).len() == hs.len(),
        forall|i: int|
            0 <= i < hs.len() ==> #[trigger] dump_entries(pretty, hs)[i] == entry_text(
                hs[i].0,
                pretty,
            )->0,
    decreases hs.len(),
{
    if hs.len() > 0 {
        let front = hs.drop_last();
        assert forall|i: int| 0 <= i < front.len() implies #[trigger] front[i].1 by {
            assert(front[i] == hs[i]);
        }
        law_unfiltered_dump_keeps_all(pretty, front);
        assert(hs[hs.len() - 1].1);
        let rest = dump_entries(pretty, front);
        assert forall|i: int| 0 <= i < hs.len() implies #[trigger] dump_entries(pretty, hs)[i]
            == entry_text(hs[i].0, pretty)->0 by {
            if i < hs.len() - 1 {
                assert(front[i] == hs[i]);
                assert(rest[i] == entry_text(front[i].0, pretty)->0);
            }
        }
    }
}

/// With a filter, the dump holds exactly the elements of the messages the
/// filter selects, in the order handled: a message passed over adds
/// nothing, and a selected one adds its element at the end.
pub proof fn law_selected_dump(pretty: bool, hs: Seq<Handled>, m: MessageModel, selected: bool)
    ensures
        !selected ==> dump_entries(pretty, hs.push((m, selected))) == dump_entries(pretty, hs),
        selected ==> dump_entries(pretty, hs.push((m, selected))) == dump_entries(pretty, hs).push(
            entry_text(m, pretty)->0,
        ),
{
    assert(hs.push((m, selected)).drop_last() =~= hs);
}

} // verus!
