//! Tool calls: decoding them from a model's reply, resolving them against
//! the registry, and rendering their results as text for the model.

use crate::json::{json_document, parse_json};
use crate::pattern::{captures_iter, regex_captures};
use crate::text::{
    contains, find, find_exec, lemma_contains_middle, lemma_find_none_without, same_text,
    to_chars, trim, trim_exec,
};
use crate::tools::{ToolResult, ToolResultView};
use crate::value::{lookup, FieldView, StructuredValue, ValueView};
use vstd::prelude::*;

verus! {

/// How many rounds of tool calls one user message may take.
pub const MAX_TOOL_ITERATIONS: usize = 10;

/// One tool call decoded from a model's reply.
#[derive(Debug, PartialEq, Eq)]
pub struct ToolCall {
    pub name: String,
    pub arguments: StructuredValue,
}

/// The mathematical content of a `ToolCall`.
pub struct ToolCallView {
    pub name: Seq<char>,
    pub arguments: ValueView,
}

impl ToolCallView {
    /// A call names its tool: the name is not empty.
    pub open spec fn well_formed(self) -> bool {
        self.name.len() > 0
    }
}

impl View for ToolCall {
    type V = ToolCallView;

    open spec fn view(&self) -> ToolCallView {
        ToolCallView { name: self.name@, arguments: self.arguments@ }
    }
}

impl DeepView for ToolCall {
    type V = ToolCallView;

    open spec fn deep_view(&self) -> ToolCallView {
        self@
    }
}

impl Clone for ToolCall {
    /// A copy with the same content.
    fn clone(&self) -> (copy: ToolCall)
        ensures
            copy@ == self@,
    {
        ToolCall { name: self.name.clone(), arguments: self.arguments.clone() }
    }
}

/// The first of two sources that is present.
pub open spec fn first_of<T>(first: Option<T>, second: Option<T>) -> Option<T> {
    if first is Some {
        first
    } else {
        second
    }
}

/// The call that a name source and an argument source make: the name has
/// to be a text that is not empty, and absent arguments stand for the empty
/// object.
pub open spec fn call_from(name: Option<ValueView>, arguments: Option<ValueView>) -> Option<
    ToolCallView,
> {
    match name {
        Some(ValueView::Text(text)) if text.len() > 0 => Some(
            ToolCallView {
                name: text,
                arguments: match arguments {
                    Some(value) => value,
                    None => ValueView::empty_object(),
                },
            },
        ),
        _ => None,
    }
}

/// A value in function style: it has a field `function`, and that field
/// holds a field `name`.
pub open spec fn is_function_style(value: ValueView) -> bool {
    value.get("function"@) matches Some(function) && function.get("name"@) is Some
}

/// A value in tool-use style: its field `type` is the text `tool_use`, and
/// it has a field `name`.
pub open spec fn is_tool_use_style(value: ValueView) -> bool {
    value.get("type"@) == Some(ValueView::Text("tool_use"@)) && value.get("name"@) is Some
}

/// The call of a value read in generic style: the name is the field `name`
/// where there is one, else `tool`; the arguments are the first that is
/// there of `arguments`, `args`, `input` and `params`.
pub open spec fn generic_call(value: ValueView) -> Option<ToolCallView> {
    call_from(
        first_of(value.get("name"@), value.get("tool"@)),
        first_of(
            value.get("arguments"@),
            first_of(value.get("args"@), first_of(value.get("input"@), value.get("params"@))),
        ),
    )
}

/// The call that one value encodes.  Three shapes are known, and the first
/// whose fields the value has decides: function style, with `name` and
/// `arguments` inside `function`; tool-use style, with `name` and `input`;
/// generic style.  A value that lacks the fields of a shape is read in the
/// next one.
pub open spec fn single_call(value: ValueView) -> Option<ToolCallView> {
    if is_function_style(value) {
        let function = value.get("function"@).unwrap();
        call_from(function.get("name"@), function.get("arguments"@))
    } else if is_tool_use_style(value) {
        call_from(value.get("name"@), value.get("input"@))
    } else {
        generic_call(value)
    }
}

/// The three shapes encode the same call: a name that is not empty and
/// arguments give one call, whichever shape carries them.
pub proof fn lemma_three_shapes_agree(name: Seq<char>, arguments: ValueView)
    requires
        name.len() > 0,
    ensures
        single_call(
            ValueView::Object(
                seq![
                    FieldView {
                        key: "function"@,
                        value: ValueView::Object(
                            seq![
                                FieldView { key: "name"@, value: ValueView::Text(name) },
                                FieldView { key: "arguments"@, value: arguments },
                            ],
                        ),
                    },
                ],
            ),
        ) == Some(ToolCallView { name, arguments }),
        single_call(
            ValueView::Object(
                seq![
                    FieldView { key: "type"@, value: ValueView::Text("tool_use"@) },
                    FieldView { key: "name"@, value: ValueView::Text(name) },
                    FieldView { key: "input"@, value: arguments },
                ],
            ),
        ) == Some(ToolCallView { name, arguments }),
        single_call(
            ValueView::Object(
                seq![
                    FieldView { key: "name"@, value: ValueView::Text(name) },
                    FieldView { key: "arguments"@, value: arguments },
                ],
            ),
        ) == Some(ToolCallView { name, arguments }),
{
    reveal_strlit("function");
    reveal_strlit("type");
    reveal_strlit("name");
    reveal_strlit("arguments");
    reveal_strlit("input");
    reveal_with_fuel(lookup, 4);
    assert("function"@.len() == 8 && "arguments"@.len() == 9 && "input"@.len() == 5);
    assert("type"@.len() == 4 && "type"@[0] == 't');
    assert("name"@.len() == 4 && "name"@[0] == 'n');
    let inner = seq![
        FieldView { key: "name"@, value: ValueView::Text(name) },
        FieldView { key: "arguments"@, value: arguments },
    ];
    assert(inner.drop_first() =~= seq![FieldView { key: "arguments"@, value: arguments }]);
    assert(inner.drop_first().drop_first() =~= Seq::empty());
    assert(lookup(inner, "name"@) == Some(ValueView::Text(name)));
    assert(lookup(inner, "arguments"@) == Some(arguments));
    assert(lookup(inner, "function"@) is None);
    assert(lookup(inner, "type"@) is None);
    let outer = seq![FieldView { key: "function"@, value: ValueView::Object(inner) }];
    assert(lookup(outer, "function"@) == Some(ValueView::Object(inner)));
    let tagged = seq![
        FieldView { key: "type"@, value: ValueView::Text("tool_use"@) },
        FieldView { key: "name"@, value: ValueView::Text(name) },
        FieldView { key: "input"@, value: arguments },
    ];
    assert(tagged.drop_first() =~= seq![
        FieldView { key: "name"@, value: ValueView::Text(name) },
        FieldView { key: "input"@, value: arguments },
    ]);
    assert(tagged.drop_first().drop_first() =~= seq![
        FieldView { key: "input"@, value: arguments },
    ]);
    assert(tagged.drop_first().drop_first().drop_first() =~= Seq::empty());
    assert(lookup(tagged, "function"@) is None);
    assert(lookup(tagged, "type"@) == Some(ValueView::Text("tool_use"@)));
    assert(lookup(tagged, "name"@) == Some(ValueView::Text(name)));
    assert(lookup(tagged, "input"@) == Some(arguments));
}

/// The calls that the values of a list encode, in the order of the list.
pub open spec fn collect_calls(items: Seq<ValueView>) -> Seq<ToolCallView>
    decreases items.len(),
{
    if items.len() == 0 {
        Seq::empty()
    } else {
        let before = collect_calls(items.drop_last());
        match single_call(items.last()) {
            Some(call) => before.push(call),
            None => before,
        }
    }
}

/// The calls that a value encodes: those of its items where it is an array,
/// else the one call that it encodes itself, if any.
pub open spec fn calls_in(value: ValueView) -> Seq<ToolCallView> {
    match value {
        ValueView::Array(items) => collect_calls(items),
        _ => match single_call(value) {
            Some(call) => seq![call],
            None => Seq::empty(),
        },
    }
}

/// Builds the call of a name source and an argument source.
fn make_call(name: Option<&StructuredValue>, arguments: Option<&StructuredValue>) -> (call: Option<
    ToolCall,
>)
    ensures
        match call {
            Some(made) => call_from(
                match name { Some(value) => Some(value@), None => None },
                match arguments { Some(value) => Some(value@), None => None },
            ) == Some(made@),
            None => call_from(
                match name { Some(value) => Some(value@), None => None },
                match arguments { Some(value) => Some(value@), None => None },
            ) is None,
        },
{
    let text = match name {
        Some(value) => match value.as_str() {
            Some(text) => text,
            None => { return None; },
        },
        None => { return None; },
    };
    if text.unicode_len() == 0 {
        return None;
    }
    let arguments = match arguments {
        Some(value) => value.clone(),
        None => StructuredValue::empty_object(),
    };
    Some(ToolCall { name: text.to_owned(), arguments })
}

/// The first of two fields that is there.
fn either<'a>(first: Option<&'a StructuredValue>, second: Option<&'a StructuredValue>) -> (chosen:
    Option<&'a StructuredValue>)
    ensures
        chosen == first_of(first, second),
{
    match first {
        Some(_) => first,
        None => second,
    }
}

/// Decodes the one call that `value` encodes, if it has one of the three
/// shapes.
pub fn extract_single_call(value: &StructuredValue) -> (call: Option<ToolCall>)
    ensures
        match call {
            Some(made) => single_call(value@) == Some(made@) && made@.well_formed(),
            None => single_call(value@) is None,
        },
{
    if let Some(function) = value.get("function") {
        let name = function.get("name");
        if name.is_some() {
            return make_call(name, function.get("arguments"));
        }
    }
    let tagged = match value.get("type") {
        Some(tag) => match tag.as_str() {
            Some(text) => same_text(text, "tool_use"),
            None => false,
        },
        None => false,
    };
    let name = value.get("name");
    if tagged && name.is_some() {
        return make_call(name, value.get("input"));
    }
    let name = either(name, value.get("tool"));
    let arguments = either(
        value.get("arguments"),
        either(value.get("args"), either(value.get("input"), value.get("params"))),
    );
    make_call(name, arguments)
}

/// Decodes every call that `value` encodes: from each item of an array,
/// in order, and else from the value itself.  What has none of the three
/// shapes is passed over.
pub fn extract_calls_from_value(value: &StructuredValue) -> (calls: Vec<ToolCall>)
    ensures
        calls.deep_view() == calls_in(value@),
        forall|i: int| 0 <= i < calls.len() ==> calls[i]@.well_formed(),
{
    let mut calls: Vec<ToolCall> = Vec::new();
    match value {
        StructuredValue::Array(items) => {
            let ghost all = value@->Array_0;
            let mut i: usize = 0;
            assert(all.subrange(0, 0) =~= Seq::empty());
            assert(calls.deep_view() =~= collect_calls(all.subrange(0, 0)));
            while i < items.len()
                invariant
                    i <= items.len(),
                    all.len() == items.len(),
                    forall|k: int| 0 <= k < items.len() ==> all[k] == items@[k]@,
                    calls.deep_view() == collect_calls(all.subrange(0, i as int)),
                    forall|k: int| 0 <= k < calls.len() ==> calls[k]@.well_formed(),
                decreases items.len() - i,
            {
                let ghost before = calls.deep_view();
                assert(all.subrange(0, i + 1).drop_last() =~= all.subrange(0, i as int));
                assert(all.subrange(0, i + 1).last() == all[i as int]);
                if let Some(call) = extract_single_call(&items[i]) {
                    calls.push(call);
                    assert(calls.deep_view() =~= before.push(call@));
                }
                i += 1;
            }
            assert(all.subrange(0, all.len() as int) =~= all);
        },
        _ => {
            if let Some(call) = extract_single_call(value) {
                calls.push(call);
                assert(calls.deep_view() =~= seq![call@]);
            } else {
                assert(calls.deep_view() =~= Seq::empty());
            }
        },
    }
    calls
}

/// The fence that opens a block of tool calls.
pub const TOOL_CALLS_FENCE: &'static str = "```tool_calls";

/// The fence that opens a block of JSON.
pub const JSON_FENCE: &'static str = "```json";

/// The fence that closes a block.
pub const CLOSING_FENCE: &'static str = "```";

/// Where the body starts when no line follows the fence of tool calls: this
/// many characters after the start of the fence.
pub const TOOL_CALLS_SKIP: usize = 14;

/// Where the body starts when no line follows the fence of JSON.
pub const JSON_SKIP: usize = 7;

/// Where the body of a block starts whose fence opens at `opening`: on the
/// line after the fence, and where the text has no further line, `skip`
/// characters after `opening`, or at the end of the text if that comes first.
pub open spec fn block_start(text: Seq<char>, opening: int, skip: int) -> int {
    match find(text, seq!['\n'], opening) {
        Some(newline) => newline + 1,
        None => if opening + skip <= text.len() {
            opening + skip
        } else {
            text.len() as int
        },
    }
}

/// The body of the first block that `fence` opens: the text from the start
/// of the body up to the next closing fence.  There is none where the fence
/// does not occur or the block is never closed.
pub open spec fn fenced_block(text: Seq<char>, fence: Seq<char>, skip: int) -> Option<Seq<char>> {
    match find(text, fence, 0) {
        Some(opening) => {
            let start = block_start(text, opening, skip);
            match find(text, CLOSING_FENCE@, start) {
                Some(closing) => Some(text.subrange(start, closing)),
                None => None,
            }
        },
        None => None,
    }
}

/// The calls that a document encodes: it is trimmed and read as JSON, and
/// a document that is no JSON encodes none.
pub open spec fn decoded_calls(document: Seq<char>) -> Seq<ToolCallView> {
    match json_document(trim(document)) {
        Some(value) => calls_in(value),
        None => Seq::empty(),
    }
}

/// The calls in the first block that `fence` opens.
pub open spec fn fenced_calls(text: Seq<char>, fence: Seq<char>, skip: int) -> Seq<ToolCallView> {
    match fenced_block(text, fence, skip) {
        Some(body) => decoded_calls(body),
        None => Seq::empty(),
    }
}

/// The bounds of the body of the first block that `fence` opens in `text`.
pub fn find_fenced_block(text: &Vec<char>, fence: &Vec<char>, skip: usize) -> (bounds: Option<
    (usize, usize),
>)
    ensures
        match bounds {
            Some((start, end)) => {
                &&& start <= end <= text.len()
                &&& fenced_block(text@, fence@, skip as int) == Some(
                    text@.subrange(start as int, end as int),
                )
            },
            None => fenced_block(text@, fence@, skip as int) is None,
        },
{
    let opening = match find_exec(text, fence, 0) {
        Some(at) => at,
        None => { return None; },
    };
    let newline: Vec<char> = vec!['\n'];
    assert(newline@ =~= seq!['\n']);
    let start = match find_exec(text, &newline, opening) {
        Some(at) => at + 1,
        None => if skip <= text.len() - opening {
            opening + skip
        } else {
            text.len()
        },
    };
    let closing = to_chars(CLOSING_FENCE);
    match find_exec(text, &closing, start) {
        Some(end) => Some((start, end)),
        None => None,
    }
}

/// Decodes the calls of the document `response[start..end]`; `chars` holds
/// the characters of `response`.
fn decode_range(response: &str, chars: &Vec<char>, start: usize, end: usize) -> (calls: Vec<
    ToolCall,
>)
    requires
        chars@ == response@,
        start <= end <= chars.len(),
    ensures
        calls.deep_view() == decoded_calls(chars@.subrange(start as int, end as int)),
        forall|i: int| 0 <= i < calls.len() ==> calls[i]@.well_formed(),
{
    let (from, to) = trim_exec(chars, start, end);
    match parse_json(response.substring_char(from, to)) {
        Some(value) => extract_calls_from_value(&value),
        None => {
            let calls: Vec<ToolCall> = Vec::new();
            assert(calls.deep_view() =~= Seq::empty());
            calls
        },
    }
}

/// Decodes the calls of the first block that `fence` opens in `response`.
pub fn parse_fenced_calls(response: &str, fence: &str, skip: usize) -> (calls: Vec<ToolCall>)
    ensures
        calls.deep_view() == fenced_calls(response@, fence@, skip as int),
        forall|i: int| 0 <= i < calls.len() ==> calls[i]@.well_formed(),
{
    let chars = to_chars(response);
    let fence_chars = to_chars(fence);
    match find_fenced_block(&chars, &fence_chars, skip) {
        Some((start, end)) => decode_range(response, &chars, start, end),
        None => {
            let calls: Vec<ToolCall> = Vec::new();
            assert(calls.deep_view() =~= Seq::empty());
            calls
        },
    }
}

/// Decodes the calls of a response that is one JSON document as a whole.
pub fn parse_whole_calls(response: &str) -> (calls: Vec<ToolCall>)
    ensures
        calls.deep_view() == decoded_calls(response@),
        forall|i: int| 0 <= i < calls.len() ==> calls[i]@.well_formed(),
{
    let chars = to_chars(response);
    assert(chars@.subrange(0, chars.len() as int) =~= chars@);
    decode_range(response, &chars, 0, chars.len())
}

/// Inline calls: a name, then in round brackets an object in braces, an
/// array in square brackets, or any text up to the closing bracket.
pub const BRACKETED_PATTERN: &'static str =
    r"(\w+)\s*\((\{.*?\})\)|(\w+)\s*\((\[.*?\])\)|(\w+)\s*\(([^)]+)\)";

/// The text of group `index` of a match, where the group took part.
pub open spec fn group(groups: Seq<Option<Seq<char>>>, index: int) -> Option<Seq<char>> {
    if 0 <= index < groups.len() {
        groups[index]
    } else {
        None
    }
}

/// The name and the argument text of one match: each alternative of the
/// pattern has a group for the name and one for the arguments.
pub open spec fn bracketed_parts(groups: Seq<Option<Seq<char>>>) -> Option<
    (Seq<char>, Seq<char>),
> {
    let name = first_of(group(groups, 1), first_of(group(groups, 3), group(groups, 5)));
    let arguments = first_of(group(groups, 2), first_of(group(groups, 4), group(groups, 6)));
    if name is Some && arguments is Some {
        Some((name.unwrap(), arguments.unwrap()))
    } else {
        None
    }
}

/// The call of a name and of what its argument text reads as: none where
/// the name is empty or the text is no JSON.
pub open spec fn named_call(name: Seq<char>, arguments: Option<ValueView>) -> Option<
    ToolCallView,
> {
    match arguments {
        Some(value) if name.len() > 0 => Some(ToolCallView { name, arguments: value }),
        _ => None,
    }
}

/// The call that one match encodes.
pub open spec fn bracketed_call(groups: Seq<Option<Seq<char>>>) -> Option<ToolCallView> {
    match bracketed_parts(groups) {
        Some((name, arguments)) => named_call(name, json_document(arguments)),
        None => None,
    }
}

/// The calls that the matches encode, in the order of the matches.
pub open spec fn collect_bracketed(matches: Seq<Seq<Option<Seq<char>>>>) -> Seq<ToolCallView>
    decreases matches.len(),
{
    if matches.len() == 0 {
        Seq::empty()
    } else {
        let before = collect_bracketed(matches.drop_last());
        match bracketed_call(matches.last()) {
            Some(call) => before.push(call),
            None => before,
        }
    }
}

/// The inline calls of a text.
pub open spec fn bracketed_calls(text: Seq<char>) -> Seq<ToolCallView> {
    match regex_captures(BRACKETED_PATTERN@, text) {
        Some(matches) => collect_bracketed(matches),
        None => Seq::empty(),
    }
}

/// The text of group `index`, where the match has that group and it took
/// part.
fn group_text(groups: &Vec<Option<String>>, index: usize) -> (text: Option<&String>)
    ensures
        match text {
            Some(chars) => group(groups.deep_view(), index as int) == Some(chars@),
            None => group(groups.deep_view(), index as int) is None,
        },
{
    if index < groups.len() {
        match &groups[index] {
            Some(chars) => Some(chars),
            None => None,
        }
    } else {
        None
    }
}

/// The first of two texts that is there.
fn either_text<'a>(first: Option<&'a String>, second: Option<&'a String>) -> (chosen: Option<
    &'a String,
>)
    ensures
        chosen == first_of(first, second),
{
    match first {
        Some(_) => first,
        None => second,
    }
}

/// Picks the name and the argument text out of the groups of one match.
pub fn select_bracketed(groups: &Vec<Option<String>>) -> (parts: Option<(String, String)>)
    ensures
        match parts {
            Some((name, arguments)) => bracketed_parts(groups.deep_view()) == Some(
                (name@, arguments@),
            ),
            None => bracketed_parts(groups.deep_view()) is None,
        },
{
    let name = either_text(
        group_text(groups, 1),
        either_text(group_text(groups, 3), group_text(groups, 5)),
    );
    let arguments = either_text(
        group_text(groups, 2),
        either_text(group_text(groups, 4), group_text(groups, 6)),
    );
    match (name, arguments) {
        (Some(name), Some(arguments)) => Some((name.clone(), arguments.clone())),
        _ => None,
    }
}

/// Makes the call of a name and of what its argument text was read as.
pub fn call_with_arguments(name: String, arguments: Option<StructuredValue>) -> (call: Option<
    ToolCall,
>)
    ensures
        match call {
            Some(made) => {
                &&& named_call(
                    name@,
                    match arguments {
                        Some(value) => Some(value@),
                        None => None,
                    },
                ) == Some(made@)
                &&& made@.well_formed()
            },
            None => named_call(
                name@,
                match arguments {
                    Some(value) => Some(value@),
                    None => None,
                },
            ) is None,
        },
{
    match arguments {
        Some(value) => {
            if name.as_str().unicode_len() == 0 {
                None
            } else {
                Some(ToolCall { name, arguments: value })
            }
        },
        None => None,
    }
}

/// Decodes the inline calls of `response`: every match of
/// `BRACKETED_PATTERN` whose argument text is JSON gives one call, and the
/// others are passed over.  `None` where no call came of it.
pub fn parse_bracketed_tool_calls(response: &str) -> (found: Option<Vec<ToolCall>>)
    ensures
        match found {
            Some(calls) => {
                &&& calls.len() > 0
                &&& calls.deep_view() == bracketed_calls(response@)
                &&& forall|i: int| 0 <= i < calls.len() ==> calls[i]@.well_formed()
            },
            None => bracketed_calls(response@).len() == 0,
        },
{
    let matches = match captures_iter(BRACKETED_PATTERN, response) {
        Some(matches) => matches,
        None => { return None; },
    };
    let ghost all = matches.deep_view();
    let mut calls: Vec<ToolCall> = Vec::new();
    let mut i: usize = 0;
    assert(all.subrange(0, 0) =~= Seq::empty());
    assert(calls.deep_view() =~= collect_bracketed(all.subrange(0, 0)));
    while i < matches.len()
        invariant
            i <= matches.len(),
            all == matches.deep_view(),
            calls.deep_view() == collect_bracketed(all.subrange(0, i as int)),
            forall|k: int| 0 <= k < calls.len() ==> calls[k]@.well_formed(),
        decreases matches.len() - i,
    {
        let ghost before = calls.deep_view();
        assert(all.subrange(0, i + 1).drop_last() =~= all.subrange(0, i as int));
        assert(all.subrange(0, i + 1).last() == matches@[i as int].deep_view());
        if let Some((name, arguments)) = select_bracketed(&matches[i]) {
            let parsed = parse_json(arguments.as_str());
            if let Some(call) = call_with_arguments(name, parsed) {
                calls.push(call);
                assert(calls.deep_view() =~= before.push(call@));
            }
        }
        i += 1;
    }
    assert(all.subrange(0, all.len() as int) =~= all);
    if calls.len() == 0 {
        None
    } else {
        Some(calls)
    }
}

/// The calls that a response encodes.  Four forms are tried in order and
/// the first that yields a call decides alone: a fenced block of tool
/// calls, a fenced block of JSON, the whole response as JSON, inline calls.
pub open spec fn parsed_calls(text: Seq<char>) -> Seq<ToolCallView> {
    if fenced_calls(text, TOOL_CALLS_FENCE@, TOOL_CALLS_SKIP as int).len() > 0 {
        fenced_calls(text, TOOL_CALLS_FENCE@, TOOL_CALLS_SKIP as int)
    } else if fenced_calls(text, JSON_FENCE@, JSON_SKIP as int).len() > 0 {
        fenced_calls(text, JSON_FENCE@, JSON_SKIP as int)
    } else if decoded_calls(text).len() > 0 {
        decoded_calls(text)
    } else {
        bracketed_calls(text)
    }
}

/// Decodes the tool calls of a model's reply.  It never fails: a reply in
/// none of the four forms holds no call.
pub fn parse_tool_calls(response: &str) -> (calls: Vec<ToolCall>)
    ensures
        calls.deep_view() == parsed_calls(response@),
        forall|i: int| 0 <= i < calls.len() ==> calls[i]@.well_formed(),
{
    let fenced = parse_fenced_calls(response, TOOL_CALLS_FENCE, TOOL_CALLS_SKIP);
    if fenced.len() > 0 {
        return fenced;
    }
    let json = parse_fenced_calls(response, JSON_FENCE, JSON_SKIP);
    if json.len() > 0 {
        return json;
    }
    let whole = parse_whole_calls(response);
    if whole.len() > 0 {
        return whole;
    }
    match parse_bracketed_tool_calls(response) {
        Some(calls) => calls,
        None => {
            let calls: Vec<ToolCall> = Vec::new();
            assert(calls.deep_view() =~= bracketed_calls(response@));
            calls
        },
    }
}

/// A text in none of the four forms holds no call: no fence of tool calls,
/// no fence of JSON, no JSON as a whole, and no match of the inline pattern.
pub proof fn lemma_no_form_no_calls(text: Seq<char>)
    requires
        !contains(text, TOOL_CALLS_FENCE@),
        !contains(text, JSON_FENCE@),
        json_document(trim(text)) is None,
        match regex_captures(BRACKETED_PATTERN@, text) {
            Some(matches) => matches.len() == 0,
            None => true,
        },
    ensures
        parsed_calls(text) == Seq::<ToolCallView>::empty(),
{
    lemma_find_none_without(text, TOOL_CALLS_FENCE@, 0);
    lemma_find_none_without(text, JSON_FENCE@, 0);
}

/// Where the fenced block of tool calls yields a call, its calls are the
/// result, whatever else the text holds.
pub proof fn lemma_tool_calls_block_decides(text: Seq<char>)
    requires
        fenced_calls(text, TOOL_CALLS_FENCE@, TOOL_CALLS_SKIP as int).len() > 0,
    ensures
        parsed_calls(text) == fenced_calls(text, TOOL_CALLS_FENCE@, TOOL_CALLS_SKIP as int),
{
}

/// The first place at or after `from` where the registry holds `name`,
/// letter for letter.
pub open spec fn position(registry: Seq<Seq<char>>, name: Seq<char>, from: int) -> Option<int>
    decreases registry.len() - from,
{
    if from < 0 || from >= registry.len() {
        None
    } else if registry[from] == name {
        Some(from)
    } else {
        position(registry, name, from + 1)
    }
}

/// A position that `position` finds lies in the registry, at or after
/// `from`, and holds the name.
pub proof fn lemma_position_in_range(registry: Seq<Seq<char>>, name: Seq<char>, from: int)
    ensures
        match position(registry, name, from) {
            Some(index) => from <= index < registry.len() && registry[index] == name,
            None => true,
        },
    decreases registry.len() - from,
{
    if from < 0 || from >= registry.len() {
    } else if registry[from] == name {
    } else {
        lemma_position_in_range(registry, name, from + 1);
    }
}

/// The result for a call whose tool the registry does not hold.
pub open spec fn not_found(name: Seq<char>) -> ToolResultView {
    ToolResultView {
        success: false,
        output: Seq::empty(),
        error: Some("Tool '"@ + name + "' not found"@),
    }
}

/// The result for a tool that failed to run, with the cause it gave.
pub open spec fn failed(cause: Seq<char>) -> ToolResultView {
    ToolResultView {
        success: false,
        output: Seq::empty(),
        error: Some("Tool execution failed: "@ + cause),
    }
}

/// The result that an outcome of a tool run stands for: a result is passed
/// on as it is, a failure becomes a failed result.
pub open spec fn concluded(outcome: Result<ToolResultView, Seq<char>>) -> ToolResultView {
    match outcome {
        Ok(result) => result,
        Err(cause) => failed(cause),
    }
}

/// What to do about a call once it was held against the registry.
#[derive(Debug, PartialEq, Eq)]
pub enum Execution {
    /// No tool has the call's name; this is the result.
    Finished(ToolResult),
    /// The tool at place `tool` of the registry is to be run with these
    /// arguments, and its outcome handed to `complete_tool_call`.
    Run { tool: usize, arguments: StructuredValue },
}

/// Finds the first tool named `name` in the registry.
pub fn find_tool(tools: &Vec<String>, name: &str) -> (found: Option<usize>)
    ensures
        match found {
            Some(index) => index < tools.len() && position(tools.deep_view(), name@, 0) == Some(
                index as int,
            ),
            None => position(tools.deep_view(), name@, 0) is None,
        },
{
    let wanted = name.to_owned();
    let mut i: usize = 0;
    while i < tools.len()
        invariant
            i <= tools.len(),
            wanted@ == name@,
            position(tools.deep_view(), name@, 0) == position(tools.deep_view(), name@, i as int),
        decreases tools.len() - i,
    {
        if tools[i] == wanted {
            return Some(i);
        }
        i += 1;
    }
    None
}

/// The result for a call to a tool that the registry does not hold.
pub fn not_found_result(name: &str) -> (result: ToolResult)
    ensures
        result@ == not_found(name@),
        result@.well_formed(),
{
    let mut message = "Tool '".to_owned();
    message.append(name);
    message.append("' not found");
    ToolResult { success: false, output: String::new(), error: Some(message) }
}

/// Starts a tool call: the call is held against the names of the registry,
/// which stand in the registry's order.  The first tool with exactly the
/// call's name is to be run; where there is none, the call is finished with
/// the result that says so.
pub fn execute_tool_call(tool_call: &ToolCall, tools: &Vec<String>) -> (execution: Execution)
    ensures
        match position(tools.deep_view(), tool_call@.name, 0) {
            Some(index) => {
                &&& execution matches Execution::Run { tool, arguments }
                &&& tool == index < tools.len()
                &&& arguments@ == tool_call@.arguments
            },
            None => execution matches Execution::Finished(result) && result@ == not_found(
                tool_call@.name,
            ),
        },
        tools.len() == 0 ==> ({
            &&& execution matches Execution::Finished(result)
            &&& !result.success
            &&& result.error matches Some(message)
            &&& contains(message@, "not found"@)
            &&& contains(message@, tool_call.name@)
        }),
{
    proof {
        lemma_empty_registry_not_found(tool_call@.name);
    }
    match find_tool(tools, tool_call.name.as_str()) {
        Some(tool) => Execution::Run { tool, arguments: tool_call.arguments.clone() },
        None => Execution::Finished(not_found_result(tool_call.name.as_str())),
    }
}

/// Ends a tool call with what running the tool gave: its result as it is,
/// or for a failure the result that carries the cause.
pub fn complete_tool_call(outcome: Result<ToolResult, String>) -> (result: ToolResult)
    ensures
        result@ == concluded(
            match outcome {
                Ok(given) => Ok(given@),
                Err(cause) => Err(cause@),
            },
        ),
        (outcome matches Ok(given) ==> given@.well_formed()) ==> result@.well_formed(),
{
    match outcome {
        Ok(given) => given,
        Err(cause) => {
            let mut message = "Tool execution failed: ".to_owned();
            message.append(cause.as_str());
            ToolResult { success: false, output: String::new(), error: Some(message) }
        },
    }
}

/// An empty registry holds no tool, so every call to it ends as not found:
/// without success, and with an error that holds the words `not found` and
/// the name that was asked for.
pub proof fn lemma_empty_registry_not_found(name: Seq<char>)
    ensures
        position(Seq::empty(), name, 0) is None,
        !not_found(name).success,
        not_found(name).error is Some,
        contains(not_found(name).error.unwrap(), "not found"@),
        contains(not_found(name).error.unwrap(), name),
{
    reveal_strlit("' not found");
    reveal_strlit("not found");
    reveal_strlit("' ");
    let message = not_found(name).error.unwrap();
    lemma_contains_middle("Tool '"@, name, "' not found"@);
    assert("' not found"@ =~= "' "@ + "not found"@);
    assert(message =~= ("Tool '"@ + name + "' "@) + "not found"@ + Seq::empty());
    lemma_contains_middle("Tool '"@ + name + "' "@, "not found"@, Seq::empty());
}

/// The text that tells the model how a call went.
pub open spec fn formatted_result(call: ToolCallView, result: ToolResultView) -> Seq<char> {
    if result.success {
        "Tool "@ + call.name + " completed successfully:\nOutput: "@ + result.output
    } else {
        "Tool "@ + call.name + " failed:\nError: "@ + match result.error {
            Some(message) => message,
            None => "Unknown error"@,
        }
    }
}

/// The text of a success holds the words `completed successfully` and the
/// output as it is; the text of a failure holds `failed` and the error, or
/// `Unknown error` where the result carries none.
pub proof fn lemma_formatted_result_holds(call: ToolCallView, result: ToolResultView)
    ensures
        result.success ==> contains(formatted_result(call, result), "completed successfully"@)
            && contains(formatted_result(call, result), result.output),
        !result.success ==> contains(formatted_result(call, result), "failed"@),
        !result.success && result.error is Some ==> contains(
            formatted_result(call, result),
            result.error.unwrap(),
        ),
        !result.success && result.error is None ==> contains(
            formatted_result(call, result),
            "Unknown error"@,
        ),
{
    let text = formatted_result(call, result);
    if result.success {
        reveal_strlit(" completed successfully:\nOutput: ");
        reveal_strlit("completed successfully");
        reveal_strlit(" ");
        reveal_strlit(":\nOutput: ");
        assert(" completed successfully:\nOutput: "@ =~= " "@ + "completed successfully"@
            + ":\nOutput: "@);
        assert(text =~= ("Tool "@ + call.name + " "@) + "completed successfully"@ + (":\nOutput: "@
            + result.output));
        lemma_contains_middle(
            "Tool "@ + call.name + " "@,
            "completed successfully"@,
            ":\nOutput: "@ + result.output,
        );
        assert(text =~= ("Tool "@ + call.name + " completed successfully:\nOutput: "@)
            + result.output + Seq::empty());
        lemma_contains_middle(
            "Tool "@ + call.name + " completed successfully:\nOutput: "@,
            result.output,
            Seq::empty(),
        );
    } else {
        reveal_strlit(" failed:\nError: ");
        reveal_strlit("failed");
        reveal_strlit(" ");
        reveal_strlit(":\nError: ");
        let tail = match result.error {
            Some(message) => message,
            None => "Unknown error"@,
        };
        assert(" failed:\nError: "@ =~= " "@ + "failed"@ + ":\nError: "@);
        assert(text =~= ("Tool "@ + call.name + " "@) + "failed"@ + (":\nError: "@ + tail));
        lemma_contains_middle("Tool "@ + call.name + " "@, "failed"@, ":\nError: "@ + tail);
        assert(text =~= ("Tool "@ + call.name + " failed:\nError: "@) + tail + Seq::empty());
        lemma_contains_middle("Tool "@ + call.name + " failed:\nError: "@, tail, Seq::empty());
    }
}

/// Renders the result of a call as text for the model.
pub fn format_tool_result(call: &ToolCall, result: &ToolResult) -> (text: String)
    ensures
        text@ == formatted_result(call@, result@),
        result.success ==> contains(text@, "completed successfully"@) && contains(
            text@,
            result.output@,
        ),
        !result.success ==> contains(text@, "failed"@) && contains(
            text@,
            match result.error {
                Some(message) => message@,
                None => "Unknown error"@,
            },
        ),
{
    proof {
        lemma_formatted_result_holds(call@, result@);
    }
    let mut text = "Tool ".to_owned();
    text.append(call.name.as_str());
    if result.success {
        text.append(" completed successfully:\nOutput: ");
        text.append(result.output.as_str());
    } else {
        text.append(" failed:\nError: ");
        match &result.error {
            Some(message) => text.append(message.as_str()),
            None => text.append("Unknown error"),
        }
    }
    text
}

} // verus!
