//! The chat adapter: fields are marked by `[[ ## name ## ]]` headers.
use vstd::prelude::*;
use crate::adapters::error::{AdapterError, ErrorModel};
use crate::example::{Example, EntryModel, lookup, set_entry, has_key, key_index, lemma_views_push};
use crate::message::{Message, MessageRole, message_models};
use crate::patterns::{first_capture, spec_first_capture, chat_header_pattern, chat_header_facts, ascii_word, is_word_ascii, has_open_bracket};
use crate::signature::{FieldDescriptor, header_of, display_desc_of, header_string};
use crate::text::{
    join, join_strings, views, trim, lines, lines_acc, strip_cr, lines_of, string_of, trim_chars, chars_of, concat3,
    lemma_lines_acc_append, lemma_lines_acc_newline, lemma_trim_push_ws, contains, lemma_join_contains,
};
use crate::value::{FieldValue, ValueModel, value_text};

verus! {

/// The default adapter: fields are marked by `[[ ## field_name ## ]]` headers.
pub struct ChatAdapter;

/// The model of a message sequence.
pub type MessagesModel = Seq<(MessageRole, Seq<char>)>;

/// The models of the demo examples.
pub open spec fn demo_models(demos: Seq<Example>) -> Seq<Seq<EntryModel>> {
    demos.map_values(|d: Example| d@.entries)
}

/// For each of `fields` that `es` has: its header, a newline and its value's text.
pub open spec fn field_parts(fields: Seq<FieldDescriptor>, es: Seq<EntryModel>) -> Seq<Seq<char>>
    decreases fields.len(),
{
    if fields.len() == 0 {
        Seq::empty()
    } else {
        let prev = field_parts(fields.drop_last(), es);
        match lookup(es, fields.last().name@) {
            Some(v) => prev.push(header_of(fields.last().name@) + "\n"@ + value_text(v)),
            None => prev,
        }
    }
}

/// For each output field: its header followed by a newline, to be filled in.
pub open spec fn empty_headers(fields: Seq<FieldDescriptor>) -> Seq<Seq<char>> {
    fields.map_values(|f: FieldDescriptor| header_of(f.name@) + "\n"@)
}

/// `[[ ## name ## ]]: description` for each field.
pub open spec fn format_lines(fields: Seq<FieldDescriptor>) -> Seq<Seq<char>> {
    fields.map_values(|f: FieldDescriptor| header_of(f.name@) + ": "@ + display_desc_of(f))
}

/// The text of a demo: its input and then output fields that it has, with
/// headers, separated by blank lines.
pub open spec fn chat_demo_text(inputs: Seq<FieldDescriptor>, outputs: Seq<FieldDescriptor>, es: Seq<EntryModel>) -> Seq<char> {
    join(field_parts(inputs, es) + field_parts(outputs, es), "\n\n"@)
}

/// The text of the final user message: the inputs that are given, then an
/// empty header for each output field.
pub open spec fn chat_input_text(inputs: Seq<FieldDescriptor>, outputs: Seq<FieldDescriptor>, es: Seq<EntryModel>) -> Seq<char> {
    join(field_parts(inputs, es) + empty_headers(outputs), "\n\n"@)
}

/// The system message: the instruction, a separator, and the format of each
/// field.
pub open spec fn chat_system_text(instruction: Seq<char>, inputs: Seq<FieldDescriptor>, outputs: Seq<FieldDescriptor>) -> Seq<char> {
    join(
        seq![instruction, ""@, "---"@, ""@, "Follow the following format."@, ""@] + format_lines(inputs) + format_lines(outputs),
        "\n"@,
    )
}

/// For each demo, a user message with its text and the assistant reply `(demo)`.
pub open spec fn chat_demo_messages(inputs: Seq<FieldDescriptor>, outputs: Seq<FieldDescriptor>, demos: Seq<Seq<EntryModel>>) -> MessagesModel
    decreases demos.len(),
{
    if demos.len() == 0 {
        Seq::empty()
    } else {
        chat_demo_messages(inputs, outputs, demos.drop_last())
            .push((MessageRole::User, chat_demo_text(inputs, outputs, demos.last())))
            .push((MessageRole::Assistant, "(demo)"@))
    }
}

/// All messages of a chat-format request.
pub open spec fn chat_messages(
    instruction: Seq<char>,
    inputs: Seq<FieldDescriptor>,
    outputs: Seq<FieldDescriptor>,
    demos: Seq<Seq<EntryModel>>,
    es: Seq<EntryModel>,
) -> MessagesModel {
    seq![(MessageRole::System, chat_system_text(instruction, inputs, outputs))]
        + chat_demo_messages(inputs, outputs, demos)
        + seq![(MessageRole::User, chat_input_text(inputs, outputs, es))]
}

/// The state of the line scan of a reply: the fields found so far, the field
/// being read, and its text so far.
pub struct ChatScan {
    pub result: Seq<EntryModel>,
    pub field: Option<Seq<char>>,
    pub value: Seq<char>,
}

/// The header a line starts, if it holds one.
pub open spec fn line_header(line: Seq<char>) -> Option<Seq<char>> {
    match spec_first_capture(chat_header_pattern(), line) {
        Ok(Some(n)) => Some(n),
        _ => None,
    }
}

/// Closing the field being read: it gets its text, trimmed.
pub open spec fn flush(st: ChatScan) -> Seq<EntryModel> {
    match st.field {
        Some(f) => set_entry(st.result, f, ValueModel::Str(trim(st.value))),
        None => st.result,
    }
}

/// One line of the scan, given the header the line holds, if any: a header
/// closes the field being read and opens its own; any other line adds to the
/// field being read (after a newline, if it has text already), and is skipped
/// before the first header.
pub open spec fn chat_step_with(st: ChatScan, line: Seq<char>, header: Option<Seq<char>>) -> ChatScan {
    match header {
        Some(n) => ChatScan { result: flush(st), field: Some(n), value: Seq::empty() },
        None => if st.field is Some {
            ChatScan {
                result: st.result,
                field: st.field,
                value: (if st.value.len() == 0 { st.value } else { st.value.push('\n') }) + line,
            }
        } else {
            st
        },
    }
}

/// One line of the scan (see `chat_step_with`).
pub open spec fn chat_step(st: ChatScan, line: Seq<char>) -> ChatScan {
    chat_step_with(st, line, line_header(line))
}

/// The scan over the first lines.
pub open spec fn chat_scan(ls: Seq<Seq<char>>) -> ChatScan
    decreases ls.len(),
{
    if ls.len() == 0 {
        ChatScan { result: Seq::empty(), field: None, value: Seq::empty() }
    } else {
        chat_step(chat_scan(ls.drop_last()), ls.last())
    }
}

/// The scan over the first lines, given `headers`, the header each line of
/// the reply holds, if any.
pub open spec fn chat_scan_with(ls: Seq<Seq<char>>, headers: Seq<Option<Seq<char>>>) -> ChatScan
    decreases ls.len(),
{
    if ls.len() == 0 {
        ChatScan { result: Seq::empty(), field: None, value: Seq::empty() }
    } else {
        chat_step_with(chat_scan_with(ls.drop_last(), headers), ls.last(), headers[ls.len() - 1])
    }
}

/// The models of the headers found in lines.
pub open spec fn header_models(headers: Seq<Option<String>>) -> Seq<Option<Seq<char>>> {
    headers.map_values(|h: Option<String>| match h {
        Some(n) => Some(n@),
        None => None,
    })
}

/// The output fields read from a chat-format reply, given the header each of
/// its lines holds.
pub open spec fn chat_parse_with(response: Seq<char>, outputs: Seq<FieldDescriptor>, headers: Seq<Option<Seq<char>>>) -> Result<Seq<EntryModel>, ErrorModel> {
    chat_fill(flush(chat_scan_with(lines(response), headers)), outputs, outputs.len(), response)
}

/// Given the header of each line, the scan is the one that finds the
/// headers itself.
proof fn lemma_chat_scan_with(ls: Seq<Seq<char>>, headers: Seq<Option<Seq<char>>>)
    requires
        ls.len() <= headers.len(),
        forall|i: int| 0 <= i < ls.len() ==> #[trigger] headers[i] == line_header(ls[i]),
    ensures
        chat_scan_with(ls, headers) == chat_scan(ls),
    decreases ls.len(),
{
    if ls.len() > 0 {
        let p = ls.drop_last();
        assert forall|i: int| 0 <= i < p.len() implies #[trigger] headers[i] == line_header(p[i]) by {
            assert(p[i] == ls[i]);
        }
        lemma_chat_scan_with(p, headers);
        assert(headers[ls.len() - 1] == line_header(ls.last()));
    }
}

/// Checking the output fields in order: a missing one is an error, except that
/// a lone output field takes the whole trimmed reply.
pub open spec fn chat_fill(found: Seq<EntryModel>, outputs: Seq<FieldDescriptor>, n_outputs: nat, response: Seq<char>) -> Result<Seq<EntryModel>, ErrorModel>
    decreases outputs.len(),
{
    if outputs.len() == 0 {
        Ok(found)
    } else {
        match chat_fill(found, outputs.drop_last(), n_outputs, response) {
            Err(e) => Err(e),
            Ok(r) => {
                let name = outputs.last().name@;
                if has_key(r, name) {
                    Ok(r)
                } else if n_outputs == 1 {
                    Ok(set_entry(r, name, ValueModel::Str(trim(response))))
                } else {
                    Err(ErrorModel::MissingField(name))
                }
            },
        }
    }
}

/// What a chat-format reply parses to.
pub open spec fn chat_parse(response: Seq<char>, outputs: Seq<FieldDescriptor>) -> Result<Seq<EntryModel>, ErrorModel> {
    chat_fill(flush(chat_scan(lines(response))), outputs, outputs.len(), response)
}

/// A value the chat format carries on a single line: no line break, no
/// carriage return and no `[`.
pub open spec fn plain_value(v: Seq<char>) -> bool {
    !v.contains('\n') && !v.contains('\r') && !v.contains('\x5b')
}

/// The part of a reply for output field `i`: its header, a newline, its value.
pub open spec fn reply_part(outputs: Seq<FieldDescriptor>, vals: Seq<Seq<char>>, i: int) -> Seq<char> {
    header_of(outputs[i].name@) + "\n"@ + vals[i]
}

/// The parts of a reply, one per output field.
pub open spec fn reply_parts(outputs: Seq<FieldDescriptor>, vals: Seq<Seq<char>>) -> Seq<Seq<char>> {
    Seq::new(outputs.len(), |i: int| reply_part(outputs, vals, i))
}

/// A reply in the chat format: each output field's header and value, the
/// fields separated by blank lines.
pub open spec fn chat_reply_text(outputs: Seq<FieldDescriptor>, vals: Seq<Seq<char>>) -> Seq<char> {
    join(reply_parts(outputs, vals), "\n\n"@)
}

/// No two output fields share a name.
pub open spec fn distinct_names(outputs: Seq<FieldDescriptor>) -> bool {
    forall|i: int, j: int| 0 <= i < outputs.len() && 0 <= j < outputs.len() && i != j
        ==> #[trigger] outputs[i].name@ != #[trigger] outputs[j].name@
}

/// The output fields have distinct ASCII-identifier names, and each value is
/// a single line without `[`.
pub open spec fn chat_reply_ready(outputs: Seq<FieldDescriptor>, vals: Seq<Seq<char>>) -> bool {
    &&& vals.len() == outputs.len()
    &&& distinct_names(outputs)
    &&& forall|i: int| 0 <= i < outputs.len() ==> ascii_word(#[trigger] outputs[i].name@)
    &&& forall|i: int| 0 <= i < vals.len() ==> plain_value(#[trigger] vals[i])
}

/// The fields such a reply holds: each output field with its value trimmed.
pub open spec fn reply_entries(outputs: Seq<FieldDescriptor>, vals: Seq<Seq<char>>) -> Seq<EntryModel> {
    Seq::new(outputs.len(), |i: int| (outputs[i].name@, ValueModel::Str(trim(vals[i]))))
}

/// What the regex wrapper states of every line that it is given.
pub open spec fn header_facts_hold(ls: Seq<Seq<char>>) -> bool {
    forall|j: int| 0 <= j < ls.len() ==> chat_header_facts(#[trigger] ls[j], spec_first_capture(chat_header_pattern(), ls[j]))
}

/// The lines of a reply up to the header of field `k - 1`.
spec fn reply_lines_prefix(outputs: Seq<FieldDescriptor>, vals: Seq<Seq<char>>, k: nat) -> Seq<Seq<char>>
    decreases k,
{
    if k <= 1 {
        seq![header_of(outputs[0].name@)]
    } else {
        reply_lines_prefix(outputs, vals, (k - 1) as nat).push(vals[k - 2]).push(Seq::empty()).push(
            header_of(outputs[k - 1].name@),
        )
    }
}

proof fn lemma_header_shape(n: Seq<char>)
    requires
        ascii_word(n),
    ensures
        !header_of(n).contains('\n'),
        !header_of(n).contains('\r'),
        header_of(n).len() > 0,
        header_of(n).last() == '\x5d',
{
    reveal_strlit("[[ ## ");
    reveal_strlit(" ## ]]");
    let h = header_of(n);
    assert forall|i: int| 0 <= i < h.len() implies h[i] != '\n' && h[i] != '\r' by {
        if 6 <= i < 6 + n.len() {
            assert(h[i] == n[i - 6]);
            assert(is_word_ascii(n[i - 6]));
        }
    }
}

proof fn lemma_reply_lines_acc(outputs: Seq<FieldDescriptor>, vals: Seq<Seq<char>>, k: nat)
    requires
        chat_reply_ready(outputs, vals),
        1 <= k <= outputs.len(),
    ensures
        lines_acc(join(reply_parts(outputs, vals).take(k as int), "\n\n"@)) == (reply_lines_prefix(outputs, vals, k), vals[k - 1]),
    decreases k,
{
    reveal_strlit("\n");
    reveal_strlit("\n\n");
    let parts = reply_parts(outputs, vals);
    let h = header_of(outputs[k - 1].name@);
    let v = vals[k - 1];
    assert(ascii_word(outputs[k - 1].name@));
    assert(plain_value(v));
    lemma_header_shape(outputs[k - 1].name@);
    if k == 1 {
        assert(parts.take(1) =~= seq![parts[0]]);
        lemma_lines_acc_append(Seq::empty(), h);
        assert(Seq::<char>::empty() + h =~= h);
        lemma_lines_acc_newline(h);
        assert(lines_acc(Seq::<char>::empty()) == (Seq::<Seq<char>>::empty(), Seq::<char>::empty()));
        assert(strip_cr(h) == h);
        lemma_lines_acc_append(h.push('\n'), v);
        assert(h.push('\n') + v =~= parts[0]);
        assert(Seq::<Seq<char>>::empty().push(h) =~= seq![h]);
        assert(Seq::<char>::empty() + v =~= v);
    } else {
        lemma_reply_lines_acc(outputs, vals, (k - 1) as nat);
        let t = join(parts.take(k - 1), "\n\n"@);
        let pv = vals[k - 2];
        assert(plain_value(pv));
        assert(parts.take(k as int).drop_last() =~= parts.take(k - 1));
        assert(parts.take(k as int).last() == parts[k - 1]);
        assert(join(parts.take(k as int), "\n\n"@) == t + "\n\n"@ + parts[k - 1]);
        let a1 = t.push('\n');
        let a2 = a1.push('\n');
        let a3 = a2 + h;
        let a4 = a3.push('\n');
        let a5 = a4 + v;
        assert(a5 =~= t + "\n\n"@ + parts[k - 1]);
        lemma_lines_acc_newline(t);
        assert(strip_cr(pv) == pv) by {
            if pv.len() > 0 && pv.last() == '\r' {
                assert(pv[pv.len() - 1] == '\r');
            }
        }
        lemma_lines_acc_newline(a1);
        lemma_lines_acc_append(a2, h);
        assert(Seq::<char>::empty() + h =~= h);
        lemma_lines_acc_newline(a3);
        assert(strip_cr(h) == h);
        lemma_lines_acc_append(a4, v);
        assert(Seq::<char>::empty() + v =~= v);
        assert(strip_cr(Seq::<char>::empty()) == Seq::<char>::empty());
    }
}

proof fn lemma_reply_scan(outputs: Seq<FieldDescriptor>, vals: Seq<Seq<char>>, k: nat)
    requires
        chat_reply_ready(outputs, vals),
        1 <= k <= outputs.len(),
        header_facts_hold(reply_lines_prefix(outputs, vals, k)),
    ensures
        chat_scan(reply_lines_prefix(outputs, vals, k)) == (ChatScan {
            result: reply_entries(outputs, vals).take(k - 1),
            field: Some(outputs[k - 1].name@),
            value: Seq::empty(),
        }),
    decreases k,
{
    let es = reply_entries(outputs, vals);
    let n = outputs[k - 1].name@;
    let h = header_of(n);
    assert(ascii_word(n));
    let p = reply_lines_prefix(outputs, vals, k);
    assert(chat_header_facts(p[p.len() - 1], spec_first_capture(chat_header_pattern(), p[p.len() - 1])));
    if k == 1 {
        assert(p =~= seq![h]);
        assert(p.drop_last() =~= Seq::<Seq<char>>::empty());
        assert(line_header(h) == Some(n));
        assert(es.take(0) =~= Seq::<EntryModel>::empty());
        let init = chat_scan(Seq::<Seq<char>>::empty());
        assert(chat_scan(p) == chat_step(init, h));
        assert(chat_scan(p).result =~= es.take(k - 1));
        assert(chat_scan(p).field == Some(n));
        assert(chat_scan(p).value =~= Seq::<char>::empty());
    } else {
        let q = reply_lines_prefix(outputs, vals, (k - 1) as nat);
        let v = vals[k - 2];
        assert(plain_value(v));
        assert(header_facts_hold(q)) by {
            assert forall|j: int| 0 <= j < q.len() implies chat_header_facts(#[trigger] q[j], spec_first_capture(chat_header_pattern(), q[j])) by {
                assert(p[j] == q[j]);
            }
        }
        lemma_reply_scan(outputs, vals, (k - 1) as nat);
        let q1 = q.push(v);
        let q2 = q1.push(Seq::empty());
        assert(p == q2.push(h));
        assert(q1.drop_last() =~= q);
        assert(q2.drop_last() =~= q1);
        assert(p.drop_last() =~= q2);
        assert(p[q.len() as int] == v);
        assert(p[q.len() as int + 1] == Seq::<char>::empty());
        assert(chat_header_facts(p[q.len() as int], spec_first_capture(chat_header_pattern(), p[q.len() as int])));
        assert(chat_header_facts(p[q.len() as int + 1], spec_first_capture(chat_header_pattern(), p[q.len() as int + 1])));
        assert(!has_open_bracket(v));
        assert(!has_open_bracket(Seq::<char>::empty()));
        assert(line_header(v) is None);
        assert(line_header(Seq::<char>::empty()) is None);
        assert(line_header(h) == Some(n));
        let s1 = chat_scan(q1);
        assert(s1.value =~= v);
        let s2 = chat_scan(q2);
        assert(trim(s2.value) == trim(v)) by {
            if v.len() > 0 {
                assert(s2.value =~= v.push('\n'));
                lemma_trim_push_ws(v, '\n');
            } else {
                assert(s2.value =~= v);
            }
        }
        let pn = outputs[k - 2].name@;
        let prev = es.take(k - 2);
        assert(!has_key(prev, pn)) by {
            if has_key(prev, pn) {
                let i = key_index(prev, pn);
                assert(prev[i].0 == outputs[i].name@);
            }
        }
        assert(set_entry(prev, pn, ValueModel::Str(trim(v))) =~= es.take(k - 1));
        assert(chat_scan(p) == chat_step(s2, h));
        assert(flush(s2) == set_entry(prev, pn, ValueModel::Str(trim(s2.value))));
        assert(chat_scan(p).result =~= es.take(k - 1));
        assert(chat_scan(p).field == Some(n));
        assert(chat_scan(p).value =~= Seq::<char>::empty());
    }
}

/// A reply in the chat format whose output fields have distinct
/// ASCII-identifier names and single-line values without `[` parses to those
/// fields, each value trimmed, given what the regex wrapper states of every
/// line it reads.
proof fn lemma_chat_reply_roundtrip(outputs: Seq<FieldDescriptor>, vals: Seq<Seq<char>>)
    requires
        chat_reply_ready(outputs, vals),
        header_facts_hold(lines(chat_reply_text(outputs, vals))),
    ensures
        chat_parse(chat_reply_text(outputs, vals), outputs) == Ok::<Seq<EntryModel>, ErrorModel>(reply_entries(outputs, vals)),
{
    let text = chat_reply_text(outputs, vals);
    let es = reply_entries(outputs, vals);
    let n = outputs.len();
    if n == 0 {
        assert(reply_parts(outputs, vals) =~= Seq::<Seq<char>>::empty());
        assert(text == Seq::<char>::empty());
        assert(lines_acc(text) == (Seq::<Seq<char>>::empty(), Seq::<char>::empty()));
        assert(lines(text) =~= Seq::<Seq<char>>::empty());
        assert(es =~= Seq::<EntryModel>::empty());
    } else {
        lemma_reply_lines_acc(outputs, vals, n);
        assert(reply_parts(outputs, vals).take(n as int) =~= reply_parts(outputs, vals));
        let p = reply_lines_prefix(outputs, vals, n);
        let last = vals[n - 1];
        assert(plain_value(last));
        let ls = lines(text);
        assert(ls == if last.len() == 0 { p } else { p.push(last) });
        assert(header_facts_hold(p)) by {
            assert forall|j: int| 0 <= j < p.len() implies chat_header_facts(#[trigger] p[j], spec_first_capture(chat_header_pattern(), p[j])) by {
                assert(ls[j] == p[j]);
            }
        }
        lemma_reply_scan(outputs, vals, n);
        let ln = outputs[n - 1].name@;
        let prev = es.take(n - 1);
        assert(!has_key(prev, ln)) by {
            if has_key(prev, ln) {
                let i = key_index(prev, ln);
                assert(prev[i].0 == outputs[i].name@);
            }
        }
        if last.len() > 0 {
            assert(ls.drop_last() =~= p);
            assert(chat_header_facts(ls[p.len() as int], spec_first_capture(chat_header_pattern(), ls[p.len() as int])));
            assert(!has_open_bracket(last));
            assert(line_header(last) is None);
            assert(chat_scan(ls).value =~= last);
        } else {
            assert(trim(last) == trim(Seq::<char>::empty())) by {
                assert(last =~= Seq::<char>::empty());
            }
        }
        assert(set_entry(prev, ln, ValueModel::Str(trim(last))) =~= es);
        assert(flush(chat_scan(ls)) == es);
        assert forall|i: int| 0 <= i < outputs.len() implies has_key(es, #[trigger] outputs[i].name@) by {
            assert(es[i].0 == outputs[i].name@);
        }
        lemma_chat_fill_all(es, outputs, n as nat, text, n as int);
        assert(outputs.take(n as int) =~= outputs);
    }
}

/// The check of output fields that are all present changes nothing.
proof fn lemma_chat_fill_all(found: Seq<EntryModel>, outputs: Seq<FieldDescriptor>, n: nat, response: Seq<char>, j: int)
    requires
        0 <= j <= outputs.len(),
        forall|i: int| 0 <= i < outputs.len() ==> has_key(found, #[trigger] outputs[i].name@),
    ensures
        chat_fill(found, outputs.take(j), n, response) == Ok::<Seq<EntryModel>, ErrorModel>(found),
    decreases j,
{
    if j > 0 {
        assert(outputs.take(j).drop_last() =~= outputs.take(j - 1));
        assert(outputs.take(j).last() == outputs[j - 1]);
        lemma_chat_fill_all(found, outputs, n, response, j - 1);
    }
}

/// Once the check of the output fields fails on a prefix, it fails with the
/// same error on the whole.
proof fn lemma_chat_fill_err(found: Seq<EntryModel>, outputs: Seq<FieldDescriptor>, n: nat, response: Seq<char>, j: int)
    requires
        0 <= j <= outputs.len(),
        chat_fill(found, outputs.take(j), n, response) is Err,
    ensures
        chat_fill(found, outputs, n, response) == chat_fill(found, outputs.take(j), n, response),
    decreases outputs.len() - j,
{
    if j < outputs.len() {
        assert(outputs.take(j + 1).drop_last() =~= outputs.take(j));
        lemma_chat_fill_err(found, outputs, n, response, j + 1);
    } else {
        assert(outputs.take(j) =~= outputs);
    }
}

/// The model of a parse result.
pub open spec fn parse_model(r: Result<Example, AdapterError>) -> Result<Seq<EntryModel>, ErrorModel> {
    match r {
        Ok(e) => Ok(e@.entries),
        Err(e) => Err(e@),
    }
}

/// Appends, for each of `fields` that `ex` has, its header, a newline and its text.
pub fn push_field_parts(parts: &mut Vec<String>, fields: &[FieldDescriptor], ex: &Example)
    ensures
        views(final(parts)@) == views(old(parts)@) + field_parts(fields@, ex@.entries),
{
    let mut i: usize = 0;
    while i < fields.len()
        invariant
            i <= fields@.len(),
            views(parts@) == views(old(parts)@) + field_parts(fields@.take(i as int), ex@.entries),
        decreases fields@.len() - i,
    {
        let ghost before = views(parts@);
        assert(fields@.take(i + 1).drop_last() =~= fields@.take(i as int));
        match ex.get(fields[i].name) {
            Some(v) => {
                let text = v.to_text();
                let s = concat3(header_string(fields[i].name).as_str(), "\n", text.as_str());
                proof {
                    lemma_views_push(parts@, s);
                }
                parts.push(s);
                assert(views(parts@) =~= views(old(parts)@) + field_parts(fields@.take(i + 1), ex@.entries));
            },
            None => {
                assert(views(parts@) =~= views(old(parts)@) + field_parts(fields@.take(i + 1), ex@.entries));
            },
        }
        i = i + 1;
    }
    assert(fields@.take(i as int) =~= fields@);
}

impl ChatAdapter {
    /// `[[ ## name ## ]]`.
    pub fn format_field_header(name: &str) -> (r: String)
        ensures
            r@ == header_of(name@),
    {
        header_string(name)
    }

    /// The field's header, a newline, and the value.
    pub fn format_field_with_value(field: &FieldDescriptor, value: &str) -> (r: String)
        ensures
            r@ == header_of(field.name@) + "\n"@ + value@,
    {
        concat3(Self::format_field_header(field.name).as_str(), "\n", value)
    }

    /// The text of one demo.
    pub fn format_demo(&self, input_fields: &[FieldDescriptor], output_fields: &[FieldDescriptor], demo: &Example) -> (r: String)
        ensures
            r@ == chat_demo_text(input_fields@, output_fields@, demo@.entries),
    {
        let mut parts: Vec<String> = Vec::new();
        push_field_parts(&mut parts, input_fields, demo);
        push_field_parts(&mut parts, output_fields, demo);
        assert(views(parts@) =~= field_parts(input_fields@, demo@.entries) + field_parts(output_fields@, demo@.entries));
        join_strings(&parts, "\n\n")
    }

    /// The text of the final user message.
    pub fn format_input(&self, input_fields: &[FieldDescriptor], output_fields: &[FieldDescriptor], inputs: &Example) -> (r: String)
        ensures
            r@ == chat_input_text(input_fields@, output_fields@, inputs@.entries),
    {
        let mut parts: Vec<String> = Vec::new();
        push_field_parts(&mut parts, input_fields, inputs);
        let ghost base = views(parts@);
        let mut i: usize = 0;
        while i < output_fields.len()
            invariant
                i <= output_fields@.len(),
                views(parts@) == base + empty_headers(output_fields@).take(i as int),
            decreases output_fields@.len() - i,
        {
            let s = concat2_header_newline(output_fields[i].name);
            proof {
                lemma_views_push(parts@, s);
                assert(empty_headers(output_fields@).take(i + 1) =~= empty_headers(output_fields@).take(i as int).push(s@));
            }
            parts.push(s);
            i = i + 1;
        }
        assert(empty_headers(output_fields@).take(i as int) =~= empty_headers(output_fields@));
        join_strings(&parts, "\n\n")
    }

    /// The system message text.
    pub fn format_system(&self, instruction: &str, input_fields: &[FieldDescriptor], output_fields: &[FieldDescriptor]) -> (r: String)
        ensures
            r@ == chat_system_text(instruction@, input_fields@, output_fields@),
    {
        let mut parts: Vec<String> = Vec::new();
        parts.push(instruction.to_owned());
        parts.push("".to_owned());
        parts.push("---".to_owned());
        parts.push("".to_owned());
        parts.push("Follow the following format.".to_owned());
        parts.push("".to_owned());
        let ghost base = views(parts@);
        assert(base =~= seq![instruction@, ""@, "---"@, ""@, "Follow the following format."@, ""@]);
        push_format_lines(&mut parts, input_fields);
        push_format_lines(&mut parts, output_fields);
        assert(views(parts@) =~= base + format_lines(input_fields@) + format_lines(output_fields@));
        join_strings(&parts, "\n")
    }

    /// The messages of a chat-format request: the system message, a user and
    /// assistant pair per demo, and the user message with the inputs.
    pub fn format_messages(
        &self,
        instruction: &str,
        input_fields: &[FieldDescriptor],
        output_fields: &[FieldDescriptor],
        demos: &[Example],
        inputs: &Example,
    ) -> (r: Vec<Message>)
        ensures
            message_models(r@) == chat_messages(instruction@, input_fields@, output_fields@, demo_models(demos@), inputs@.entries),
    {
        let mut messages: Vec<Message> = Vec::new();
        let sys = self.format_system(instruction, input_fields, output_fields);
        messages.push(Message::system(sys));
        let ghost first = message_models(messages@);
        let mut i: usize = 0;
        while i < demos.len()
            invariant
                i <= demos@.len(),
                first == seq![(MessageRole::System, chat_system_text(instruction@, input_fields@, output_fields@))],
                message_models(messages@) == first + chat_demo_messages(input_fields@, output_fields@, demo_models(demos@).take(i as int)),
            decreases demos@.len() - i,
        {
            let ghost before = message_models(messages@);
            let text = self.format_demo(input_fields, output_fields, &demos[i]);
            messages.push(Message::user(text));
            messages.push(Message::assistant("(demo)".to_owned()));
            proof {
                let t = demo_models(demos@).take(i + 1);
                assert(t.drop_last() =~= demo_models(demos@).take(i as int));
                assert(message_models(messages@) =~= before.push((MessageRole::User, chat_demo_text(input_fields@, output_fields@, t.last()))).push((MessageRole::Assistant, "(demo)"@)));
            }
            i = i + 1;
        }
        assert(demo_models(demos@).take(i as int) =~= demo_models(demos@));
        let ghost mid = message_models(messages@);
        let user_text = self.format_input(input_fields, output_fields, inputs);
        messages.push(Message::user(user_text));
        assert(message_models(messages@) =~= mid.push((MessageRole::User, chat_input_text(input_fields@, output_fields@, inputs@.entries))));
        messages
    }

    /// Parses a chat-format reply into the output fields.
    ///
    /// Each `[[ ## name ## ]]` line opens a field, whose value is the trimmed
    /// text up to the next header or the end.  An output field that is not
    /// found is an error, unless it is the only output field, which then
    /// takes the whole trimmed reply.
    pub fn parse_response(&self, response: &str, output_fields: &[FieldDescriptor]) -> (r: Result<Example, AdapterError>)
        ensures
            parse_model(r) == chat_parse(response@, output_fields@),
            r matches Ok(e) ==> e@.input_keys is None,
            forall|vals: Seq<Seq<char>>| chat_reply_ready(output_fields@, vals)
                && #[trigger] chat_reply_text(output_fields@, vals) == response@
                ==> parse_model(r) == Ok::<Seq<EntryModel>, ErrorModel>(reply_entries(output_fields@, vals)),
            forall|l1: Seq<char>, l2: Seq<char>| output_fields@.len() == 1 && ascii_word(output_fields@[0].name@)
                && plain_value(l1) && plain_value(l2) && l1.len() > 0 && l2.len() > 0
                && #[trigger] two_line_reply(output_fields@[0].name@, l1, l2) == response@
                ==> parse_model(r) == Ok::<Seq<EntryModel>, ErrorModel>(
                    seq![(output_fields@[0].name@, ValueModel::Str(trim(l1 + "\n"@ + l2)))],
                ),
    {
        let chars = chars_of(response);
        let ls = lines_of(chars.as_slice());
        let ghost lsm = ls@.map_values(|l: Vec<char>| l@);
        let mut headers: Vec<Option<String>> = Vec::new();
        let mut i: usize = 0;
        while i < ls.len()
            invariant
                i <= ls@.len(),
                lsm == ls@.map_values(|l: Vec<char>| l@),
                lsm == lines(response@),
                headers@.len() == i,
                forall|j: int| 0 <= j < i ==> #[trigger] header_models(headers@)[j] == line_header(lsm[j]),
                header_facts_hold(lsm.take(i as int)),
            decreases ls@.len() - i,
        {
            let line = string_of(ls[i].as_slice());
            proof {
                assert("\\[\\[ ## (\\w+) ## \\]\\]"@ == chat_header_pattern()) by {
                    reveal_strlit("\\[\\[ ## (\\w+) ## \\]\\]");
                }
            }
            let cap = first_capture("\\[\\[ ## (\\w+) ## \\]\\]", line.as_str());
            proof {
                assert(line@ == lsm[i as int]);
                assert forall|j: int| 0 <= j < i + 1 implies chat_header_facts(#[trigger] lsm.take(i + 1)[j], spec_first_capture(chat_header_pattern(), lsm.take(i + 1)[j])) by {
                    if j < i {
                        assert(lsm.take(i + 1)[j] == lsm.take(i as int)[j]);
                    }
                }
            }
            let header = match cap {
                Ok(Some(name)) => Some(name),
                _ => None,
            };
            let ghost before = headers@;
            headers.push(header);
            proof {
                assert forall|j: int| 0 <= j < i + 1 implies #[trigger] header_models(headers@)[j] == line_header(lsm[j]) by {
                    if j < i {
                        assert(headers@[j] == before[j]);
                        assert(header_models(before)[j] == line_header(lsm[j]));
                    }
                }
            }
            i = i + 1;
        }
        assert(lsm.take(i as int) =~= lsm);
        proof {
            lemma_chat_scan_with(lsm, header_models(headers@));
            assert forall|vals: Seq<Seq<char>>| chat_reply_ready(output_fields@, vals)
                && #[trigger] chat_reply_text(output_fields@, vals) == response@
                implies chat_parse(response@, output_fields@) == Ok::<Seq<EntryModel>, ErrorModel>(reply_entries(output_fields@, vals)) by {
                lemma_chat_reply_roundtrip(output_fields@, vals);
            }
            assert forall|l1: Seq<char>, l2: Seq<char>| output_fields@.len() == 1 && ascii_word(output_fields@[0].name@)
                && plain_value(l1) && plain_value(l2) && l1.len() > 0 && l2.len() > 0
                && #[trigger] two_line_reply(output_fields@[0].name@, l1, l2) == response@
                implies chat_parse(response@, output_fields@) == Ok::<Seq<EntryModel>, ErrorModel>(
                    seq![(output_fields@[0].name@, ValueModel::Str(trim(l1 + "\n"@ + l2)))],
                ) by {
                lemma_chat_multiline_parse(output_fields@, l1, l2);
            }
        }
        chat_fields_from(response, output_fields, headers.as_slice())
    }
}

/// The output fields read from a chat-format reply, given `headers`, the
/// field header each line of the reply holds, if any (see `chat_parse_with`).
pub fn chat_fields_from(response: &str, output_fields: &[FieldDescriptor], headers: &[Option<String>]) -> (r: Result<Example, AdapterError>)
    requires
        headers@.len() == lines(response@).len(),
    ensures
        parse_model(r) == chat_parse_with(response@, output_fields@, header_models(headers@)),
        r matches Ok(e) ==> e@.input_keys is None,
{
    let ghost hm = header_models(headers@);
    let chars = chars_of(response);
    let ls = lines_of(chars.as_slice());
    let ghost lsm = ls@.map_values(|l: Vec<char>| l@);
    let mut result = Example::new();
    let mut field: Option<String> = None;
    let mut value: Vec<char> = Vec::new();
    let mut i: usize = 0;
    while i < ls.len()
        invariant
            i <= ls@.len(),
            lsm == ls@.map_values(|l: Vec<char>| l@),
            lsm == lines(response@),
            headers@.len() == lsm.len(),
            hm == header_models(headers@),
            result@.input_keys is None,
            chat_scan_with(lsm.take(i as int), hm) == (ChatScan {
                result: result@.entries,
                field: match field { Some(f) => Some(f@), None => None },
                value: value@,
            }),
        decreases ls@.len() - i,
    {
        assert(lsm.take(i + 1).drop_last() =~= lsm.take(i as int));
        assert(lsm.take(i + 1).last() == ls@[i as int]@);
        assert(hm[i as int] == match headers@[i as int] { Some(n) => Some(n@), None => None::<Seq<char>> });
        match &headers[i] {
            Some(name) => {
                match field {
                    Some(f) => {
                        let t = trim_chars(value.as_slice());
                        let ts = string_of(t.as_slice());
                        result.set(f.as_str(), FieldValue::Str(ts));
                    },
                    None => {},
                }
                field = Some(name.clone());
                value = Vec::new();
            },
            None => {
                if field.is_some() {
                    if value.len() > 0 {
                        value.push('\n');
                    }
                    let mut k: usize = 0;
                    let ghost v0 = value@;
                    while k < ls[i].len()
                        invariant
                            i < ls@.len(),
                            k <= ls@[i as int]@.len(),
                            value@ == v0 + ls@[i as int]@.take(k as int),
                        decreases ls@[i as int]@.len() - k,
                    {
                        value.push(ls[i][k]);
                        assert(ls@[i as int]@.take(k + 1) =~= ls@[i as int]@.take(k as int).push(ls@[i as int]@[k as int]));
                        k = k + 1;
                    }
                    assert(ls@[i as int]@.take(k as int) =~= ls@[i as int]@);
                }
            },
        }
        i = i + 1;
    }
    assert(lsm.take(i as int) =~= lsm);
    match field {
        Some(f) => {
            let t = trim_chars(value.as_slice());
            let ts = string_of(t.as_slice());
            result.set(f.as_str(), FieldValue::Str(ts));
        },
        None => {},
    }
    let ghost found = flush(chat_scan_with(lines(response@), hm));
    let n = output_fields.len();
    let mut j: usize = 0;
    while j < n
        invariant
            j <= n == output_fields@.len(),
            chars@ == response@,
            found == flush(chat_scan_with(lines(response@), header_models(headers@))),
            result@.input_keys is None,
            chat_fill(found, output_fields@.take(j as int), n as nat, response@) == Ok::<Seq<EntryModel>, ErrorModel>(result@.entries),
        decreases n - j,
    {
        assert(output_fields@.take(j + 1).drop_last() =~= output_fields@.take(j as int));
        let name = output_fields[j].name;
        if !result.contains_key(name) {
            if n == 1 {
                let whole = trim_chars(chars.as_slice());
                result.set(name, FieldValue::Str(string_of(whole.as_slice())));
            } else {
                proof {
                    lemma_chat_fill_err(found, output_fields@, n as nat, response@, j + 1);
                }
                return Err(AdapterError::MissingField(name.to_owned()));
            }
        }
        j = j + 1;
    }
    assert(output_fields@.take(n as int) =~= output_fields@);
    Ok(result)
}

/// The header of a field followed by a newline.
fn concat2_header_newline(name: &str) -> (r: String)
    ensures
        r@ == header_of(name@) + "\n"@,
{
    let mut r = header_string(name);
    r.append("\n");
    r
}

/// Appends `[[ ## name ## ]]: description` for each field.
fn push_format_lines(parts: &mut Vec<String>, fields: &[FieldDescriptor])
    ensures
        views(final(parts)@) == views(old(parts)@) + format_lines(fields@),
{
    let mut i: usize = 0;
    while i < fields.len()
        invariant
            i <= fields@.len(),
            views(parts@) == views(old(parts)@) + format_lines(fields@).take(i as int),
        decreases fields@.len() - i,
    {
        let s = concat3(header_string(fields[i].name).as_str(), ": ", fields[i].display_desc());
        proof {
            lemma_views_push(parts@, s);
            assert(format_lines(fields@).take(i + 1) =~= format_lines(fields@).take(i as int).push(s@));
        }
        parts.push(s);
        i = i + 1;
    }
    assert(format_lines(fields@).take(i as int) =~= format_lines(fields@));
}

/// Where `es` has the field `fields[i]`, its part is among the field parts.
proof fn lemma_field_parts_index(fields: Seq<FieldDescriptor>, es: Seq<EntryModel>, i: int) -> (k: int)
    requires
        0 <= i < fields.len(),
        lookup(es, fields[i].name@) is Some,
    ensures
        0 <= k < field_parts(fields, es).len(),
        field_parts(fields, es)[k] == header_of(fields[i].name@) + "\n"@ + value_text(lookup(es, fields[i].name@)->0),
    decreases fields.len(),
{
    let prev = field_parts(fields.drop_last(), es);
    if i == fields.len() - 1 {
        prev.len() as int
    } else {
        assert(fields.drop_last()[i] == fields[i]);
        lemma_field_parts_index(fields.drop_last(), es, i)
    }
}

/// A demo shows every input and every output field that it has: the text
/// holds the field's header, a newline and its value.
pub proof fn law_chat_demo_shows_fields(inputs: Seq<FieldDescriptor>, outputs: Seq<FieldDescriptor>, es: Seq<EntryModel>)
    ensures
        forall|i: int| 0 <= i < inputs.len() && lookup(es, #[trigger] inputs[i].name@) is Some ==> contains(
            chat_demo_text(inputs, outputs, es),
            header_of(inputs[i].name@) + "\n"@ + value_text(lookup(es, inputs[i].name@)->0),
        ),
        forall|i: int| 0 <= i < outputs.len() && lookup(es, #[trigger] outputs[i].name@) is Some ==> contains(
            chat_demo_text(inputs, outputs, es),
            header_of(outputs[i].name@) + "\n"@ + value_text(lookup(es, outputs[i].name@)->0),
        ),
{
    let a = field_parts(inputs, es);
    let b = field_parts(outputs, es);
    assert forall|i: int| 0 <= i < inputs.len() && lookup(es, #[trigger] inputs[i].name@) is Some implies contains(
        chat_demo_text(inputs, outputs, es),
        header_of(inputs[i].name@) + "\n"@ + value_text(lookup(es, inputs[i].name@)->0),
    ) by {
        let k = lemma_field_parts_index(inputs, es, i);
        assert((a + b)[k] == a[k]);
        lemma_join_contains(a + b, "\n\n"@, k);
    }
    assert forall|i: int| 0 <= i < outputs.len() && lookup(es, #[trigger] outputs[i].name@) is Some implies contains(
        chat_demo_text(inputs, outputs, es),
        header_of(outputs[i].name@) + "\n"@ + value_text(lookup(es, outputs[i].name@)->0),
    ) by {
        let k = lemma_field_parts_index(outputs, es, i);
        assert((a + b)[a.len() + k] == b[k]);
        lemma_join_contains(a + b, "\n\n"@, a.len() + k);
    }
}

/// The lines of a header line followed by two lines.
proof fn lemma_three_lines(h: Seq<char>, l1: Seq<char>, l2: Seq<char>)
    requires
        !h.contains('\n'),
        h.len() > 0 && h.last() != '\r',
        !l1.contains('\n'),
        l1.len() == 0 || l1.last() != '\r',
        !l2.contains('\n'),
        l2.len() > 0,
    ensures
        lines(h + "\n"@ + l1 + "\n"@ + l2) == seq![h, l1, l2],
{
    reveal_strlit("\n");
    let e = Seq::<char>::empty();
    lemma_lines_acc_append(e, h);
    assert(e + h =~= h);
    assert(lines_acc(e) == (Seq::<Seq<char>>::empty(), e));
    assert(e + h =~= h);
    lemma_lines_acc_newline(h);
    assert(strip_cr(h) == h);
    let a = h.push('\n');
    lemma_lines_acc_append(a, l1);
    assert(e + l1 =~= l1);
    let b = (a + l1).push('\n');
    lemma_lines_acc_newline(a + l1);
    assert(strip_cr(l1) == l1);
    lemma_lines_acc_append(b, l2);
    assert(e + l2 =~= l2);
    assert(h + "\n"@ + l1 + "\n"@ + l2 =~= b + l2);
    assert(lines_acc(b + l2).0 =~= seq![h, l1]);
    assert(lines(b + l2) =~= seq![h, l1, l2]);
}

/// A field whose value runs over two lines reads back as both lines joined
/// by a newline, trimmed.
pub proof fn law_chat_multiline_value(outputs: Seq<FieldDescriptor>, l1: Seq<char>, l2: Seq<char>)
    requires
        outputs.len() == 1,
        !outputs[0].name@.contains('\n'),
        !l1.contains('\n'),
        !l1.contains('\r'),
        l1.len() > 0,
        !l2.contains('\n'),
        l2.len() > 0,
    ensures
        chat_parse_with(
            header_of(outputs[0].name@) + "\n"@ + l1 + "\n"@ + l2,
            outputs,
            seq![Some(outputs[0].name@), None, None],
        ) == Ok::<Seq<EntryModel>, ErrorModel>(seq![(outputs[0].name@, ValueModel::Str(trim(l1 + "\n"@ + l2)))]),
{
    reveal_strlit("\n");
    reveal_strlit("[[ ## ");
    reveal_strlit(" ## ]]");
    let n = outputs[0].name@;
    let h = header_of(n);
    let hs = seq![Some(n), None::<Seq<char>>, None::<Seq<char>>];
    assert(!h.contains('\n')) by {
        if h.contains('\n') {
            let i = choose|i: int| 0 <= i < h.len() && h[i] == '\n';
            if 6 <= i < 6 + n.len() {
                assert(n[i - 6] == '\n');
            }
        }
    }
    assert(h.last() == ']');
    assert(l1.last() != '\r') by {
        assert(l1[l1.len() - 1] == l1.last());
    }
    lemma_three_lines(h, l1, l2);
    let response = h + "\n"@ + l1 + "\n"@ + l2;
    let ls = seq![h, l1, l2];
    let init = ChatScan { result: Seq::empty(), field: None, value: Seq::empty() };
    assert(ls.drop_last() =~= seq![h, l1]);
    assert(ls.drop_last().drop_last() =~= seq![h]);
    let s1 = chat_scan_with(seq![h], hs);
    assert(seq![h].drop_last() =~= Seq::<Seq<char>>::empty());
    assert(hs[0] == Some(n));
    assert(chat_scan_with(Seq::<Seq<char>>::empty(), hs) == init);
    assert(s1 == ChatScan { result: Seq::empty(), field: Some(n), value: Seq::empty() });
    let s2 = chat_scan_with(seq![h, l1], hs);
    assert(Seq::<char>::empty() + l1 =~= l1);
    assert(s2 == ChatScan { result: Seq::empty(), field: Some(n), value: l1 });
    let s3 = chat_scan_with(ls, hs);
    assert(s3.value =~= l1 + "\n"@ + l2);
    let found = flush(s3);
    assert(found =~= seq![(n, ValueModel::Str(trim(l1 + "\n"@ + l2)))]);
    assert(has_key(found, n)) by {
        assert(found[0].0 == n);
    }
    assert(outputs.drop_last() =~= Seq::<FieldDescriptor>::empty());
    assert(chat_fill(found, outputs.drop_last(), 1, response) == Ok::<Seq<EntryModel>, ErrorModel>(found));
}

/// The reply `[[ ## n ## ]]`, a line, and another line.
pub open spec fn two_line_reply(n: Seq<char>, l1: Seq<char>, l2: Seq<char>) -> Seq<char> {
    header_of(n) + "\n"@ + l1 + "\n"@ + l2
}

/// Given what the regex wrapper states of its lines, a lone field whose
/// value runs over two lines reads back as both lines joined, trimmed.
proof fn lemma_chat_multiline_parse(outputs: Seq<FieldDescriptor>, l1: Seq<char>, l2: Seq<char>)
    requires
        outputs.len() == 1,
        ascii_word(outputs[0].name@),
        plain_value(l1),
        plain_value(l2),
        l1.len() > 0,
        l2.len() > 0,
        header_facts_hold(lines(two_line_reply(outputs[0].name@, l1, l2))),
    ensures
        chat_parse(two_line_reply(outputs[0].name@, l1, l2), outputs)
            == Ok::<Seq<EntryModel>, ErrorModel>(seq![(outputs[0].name@, ValueModel::Str(trim(l1 + "\n"@ + l2)))]),
{
    let n = outputs[0].name@;
    let h = header_of(n);
    assert(!n.contains('\n')) by {
        if n.contains('\n') {
            let i = choose|i: int| 0 <= i < n.len() && n[i] == '\n';
            assert(is_word_ascii(n[i]));
        }
    }
    assert(!l1.contains('\r'));
    law_chat_multiline_value(outputs, l1, l2);
    reveal_strlit("[[ ## ");
    reveal_strlit(" ## ]]");
    assert(!h.contains('\n')) by {
        if h.contains('\n') {
            let i = choose|i: int| 0 <= i < h.len() && h[i] == '\n';
            if 6 <= i < 6 + n.len() {
                assert(n[i - 6] == '\n');
            }
        }
    }
    assert(h.last() == ']');
    assert(l1.last() != '\r') by {
        assert(l1[l1.len() - 1] == l1.last());
    }
    lemma_three_lines(h, l1, l2);
    let ls = seq![h, l1, l2];
    let hs = seq![Some(n), None::<Seq<char>>, None::<Seq<char>>];
    assert(chat_header_facts(ls[0], spec_first_capture(chat_header_pattern(), ls[0])));
    assert(chat_header_facts(ls[1], spec_first_capture(chat_header_pattern(), ls[1])));
    assert(chat_header_facts(ls[2], spec_first_capture(chat_header_pattern(), ls[2])));
    assert(line_header(h) == Some(n));
    assert(line_header(l1) is None);
    assert(line_header(l2) is None);
    assert forall|i: int| 0 <= i < ls.len() implies #[trigger] hs[i] == line_header(ls[i]) by {}
    lemma_chat_scan_with(ls, hs);
}

} // verus!
