//! Templates of notification actions.

use vstd::prelude::*;

use serde_json::Value;

use crate::json::{group_json_views, json_text, member_views, push_member, Json, JsonValue};
use crate::json_text::{held_json, sent_json, to_serde};
use crate::notifications::outline::{is_endless, may_not_end};
use crate::text::{chars_of, text_of};

verus! {

/// What a template can speak of.
#[derive(Debug)]
pub struct TemplateContext {
    pub hook: String,
    pub agent_id: String,
    pub agent_name: String,
    pub host: String,
    pub cwd: String,
    pub cwd_basename: String,
    pub user_prompt: String,
    pub agent_response: String,
    pub agent_summary: String,
}

/// What a template can speak of, as mathematics.
pub struct ContextView {
    pub hook: Seq<char>,
    pub agent_id: Seq<char>,
    pub agent_name: Seq<char>,
    pub host: Seq<char>,
    pub cwd: Seq<char>,
    pub cwd_basename: Seq<char>,
    pub user_prompt: Seq<char>,
    pub agent_response: Seq<char>,
    pub agent_summary: Seq<char>,
}

impl View for TemplateContext {
    type V = ContextView;

    open spec fn view(&self) -> ContextView {
        ContextView {
            hook: self.hook@,
            agent_id: self.agent_id@,
            agent_name: self.agent_name@,
            host: self.host@,
            cwd: self.cwd@,
            cwd_basename: self.cwd_basename@,
            user_prompt: self.user_prompt@,
            agent_response: self.agent_response@,
            agent_summary: self.agent_summary@,
        }
    }
}

/// A member of an object that holds a text.
pub open spec fn text_member(key: &str, text: Seq<char>) -> (Seq<char>, Json) {
    (key@, Json::Text(text))
}

/// What a template can speak of, by the names that it uses.
pub open spec fn context_data(ctx: ContextView) -> Json {
    Json::Object(
        seq![
            text_member("hook", ctx.hook),
            (
                "agent"@,
                Json::Object(
                    seq![text_member("id", ctx.agent_id), text_member("name", ctx.agent_name)],
                ),
            ),
            (
                "turn"@,
                Json::Object(
                    seq![
                        text_member("user_prompt", ctx.user_prompt),
                        text_member("agent_response", ctx.agent_response),
                        text_member("agent_summary", ctx.agent_summary),
                    ],
                ),
            ),
            text_member("host", ctx.host),
            text_member("cwd", ctx.cwd),
            text_member("cwd_basename", ctx.cwd_basename),
        ],
    )
}

/// What a template can speak of, by the names that it uses.
pub fn context_json(ctx: &TemplateContext) -> (data: JsonValue)
    ensures
        data@ == context_data(ctx@),
{
    broadcast use group_json_views;

    let mut agent: Vec<(String, JsonValue)> = Vec::new();
    push_member(&mut agent, "id", json_text(ctx.agent_id.as_str()));
    push_member(&mut agent, "name", json_text(ctx.agent_name.as_str()));
    assert(member_views(agent@) =~= seq![
        text_member("id", ctx.agent_id@),
        text_member("name", ctx.agent_name@),
    ]);
    let mut turn: Vec<(String, JsonValue)> = Vec::new();
    push_member(&mut turn, "user_prompt", json_text(ctx.user_prompt.as_str()));
    push_member(&mut turn, "agent_response", json_text(ctx.agent_response.as_str()));
    push_member(&mut turn, "agent_summary", json_text(ctx.agent_summary.as_str()));
    assert(member_views(turn@) =~= seq![
        text_member("user_prompt", ctx.user_prompt@),
        text_member("agent_response", ctx.agent_response@),
        text_member("agent_summary", ctx.agent_summary@),
    ]);
    let mut members: Vec<(String, JsonValue)> = Vec::new();
    push_member(&mut members, "hook", json_text(ctx.hook.as_str()));
    push_member(&mut members, "agent", JsonValue::Object(agent));
    push_member(&mut members, "turn", JsonValue::Object(turn));
    push_member(&mut members, "host", json_text(ctx.host.as_str()));
    push_member(&mut members, "cwd", json_text(ctx.cwd.as_str()));
    push_member(&mut members, "cwd_basename", json_text(ctx.cwd_basename.as_str()));
    let data = JsonValue::Object(members);
    assert(data@ == context_data(ctx@)) by {
        assert(member_views(members@) =~= context_data(ctx@)->Object_0);
    }
    data
}

/// A template filled in by the `handlebars` crate, in strict mode and without
/// escapes; where it cannot be, everything that the crate may say of it.
pub uninterp spec fn rendered(template: Seq<char>, data: Json) -> Result<
    Seq<char>,
    Set<Seq<char>>,
>;

/// `Handlebars::render_template` of the `handlebars` crate, in strict mode and
/// with its `no_escape`. What it makes of a template is not stated here, only
/// that the template and the data decide whether it can be filled in, with what,
/// and what may be said where it cannot be. Which of that is said is not stated:
/// the crate reports the first of several faults in an order that is left to
/// chance. A template that brings a partial into itself would never be done, and
/// is left out.
#[verifier::external_body]
fn render_template(template: &str, data: &Value) -> (r: Result<String, String>)
    requires
        !is_endless(template@),
    ensures
        match r {
            Ok(text) => rendered(template@, held_json(*data)) == Ok::<Seq<char>, Set<Seq<char>>>(
                text@,
            ),
            Err(words) => rendered(template@, held_json(*data)) is Err && rendered(
                template@,
                held_json(*data),
            )->Err_0.contains(words@),
        },
{
    let mut handlebars = handlebars::Handlebars::new();
    handlebars.set_strict_mode(true);
    handlebars.register_escape_fn(handlebars::no_escape);
    handlebars.render_template(template, data).map_err(|e| e.to_string())
}

/// What is said of a template that may bring a partial into itself.
pub open spec fn endless_words() -> Seq<char> {
    "a partial may not include itself"@
}

/// A template filled in; where it cannot be, everything that may be said of it. One
/// that may bring a partial into itself is not filled in.
pub open spec fn filling(template: Seq<char>, context: ContextView) -> Result<
    Seq<char>,
    Set<Seq<char>>,
> {
    if is_endless(template) {
        Err(set![endless_words()])
    } else {
        rendered(template, sent_json(context_data(context)))
    }
}

/// A template filled in; nothing where it cannot be.
pub open spec fn filled_in(template: Seq<char>, context: ContextView) -> Option<Seq<char>> {
    match filling(template, context) {
        Ok(text) => Some(text),
        Err(_) => None,
    }
}

/// Whether a result is the one that is owed: the same where it is a success, else
/// one of the failures that may be told.
pub open spec fn is_owed(r: Result<String, String>, owed: Result<Seq<char>, Set<Seq<char>>>) -> bool {
    match (r, owed) {
        (Ok(text), Ok(owed)) => text@ == owed,
        (Err(words), Err(may)) => may.contains(words@),
        _ => false,
    }
}

/// Fills a template in. What is said of one that cannot be filled in are the words
/// of the `handlebars` crate, except of one that may bring a partial into itself.
pub fn fill_in(template: &str, ctx: &TemplateContext) -> (r: Result<String, String>)
    ensures
        is_owed(r, filling(template@, ctx@)),
{
    if may_not_end(template) {
        return Err("a partial may not include itself".to_owned());
    }
    render_template(template, &to_serde(&context_json(ctx)))
}

/// The machine and directory that the extension runs in.
#[derive(Debug)]
pub struct Place {
    pub host: String,
    pub cwd: String,
}

/// Where the last name of a path starts, for a path that ends at an index.
pub open spec fn name_start(path: Seq<char>, end: int) -> int
    decreases end,
{
    if end <= 0 || path[end - 1] == '/' {
        end
    } else {
        name_start(path, end - 1)
    }
}

/// Where a path ends without the slashes at its end.
pub open spec fn path_end(path: Seq<char>, end: int) -> int
    decreases end,
{
    if end > 0 && path[end - 1] == '/' {
        path_end(path, end - 1)
    } else {
        end
    }
}

/// The last name of a path; the whole path where it has none.
pub open spec fn basename_of(path: Seq<char>) -> Seq<char> {
    let end = path_end(path, path.len() as int);
    let start = name_start(path, end);
    let name = path.subrange(start, end);
    if name.len() == 0 || name == ".."@ {
        path
    } else {
        name
    }
}

/// The last name of a path.
pub fn cwd_basename(path: &str) -> (name: String)
    ensures
        name@ == basename_of(path@),
{
    let chars = chars_of(path);
    let mut end: usize = chars.len();
    while end > 0 && chars[end - 1] == '/'
        invariant
            end <= chars@.len(),
            chars@ == path@,
            path_end(path@, end as int) == path_end(path@, path@.len() as int),
        decreases end,
    {
        end -= 1;
    }
    let mut start: usize = end;
    while start > 0 && chars[start - 1] != '/'
        invariant
            start <= end <= chars@.len(),
            chars@ == path@,
            name_start(path@, start as int) == name_start(path@, end as int),
        decreases start,
    {
        start -= 1;
    }
    let name = text_of(&chars, start, end);
    if name.as_str().is_empty() || crate::text::same_text(name.as_str(), "..") {
        return path.to_owned();
    }
    name
}

/// The name of a machine: its bytes up to the first zero, where they are text.
pub open spec fn host_of(bytes: Option<Seq<u8>>) -> Seq<char> {
    match bytes {
        None => "host"@,
        Some(bytes) => {
            let name = bytes.take(zero_at(bytes));
            if vstd::utf8::valid_utf8(name) {
                vstd::utf8::decode_utf8(name)
            } else {
                "host"@
            }
        },
    }
}

/// Where the first zero stands; the number of bytes if nowhere.
pub open spec fn zero_at(bytes: Seq<u8>) -> int
    decreases bytes.len(),
{
    if bytes.len() == 0 || bytes[0] == 0 {
        0
    } else {
        1 + zero_at(bytes.drop_first())
    }
}

/// The name of a machine, from what the system said of it.
pub fn hostname(answer: &Option<Vec<u8>>) -> (name: String)
    ensures
        name@ == host_of(
            match answer {
                Some(bytes) => Some(bytes@),
                None => None,
            },
        ),
{
    let bytes = match answer {
        Some(bytes) => bytes,
        None => {
            return "host".to_owned();
        },
    };
    let mut n: usize = 0;
    assert(bytes@.skip(0) =~= bytes@);
    while n < bytes.len() && bytes[n] != 0
        invariant
            n <= bytes@.len(),
            zero_at(bytes@) == n + zero_at(bytes@.skip(n as int)),
        decreases bytes.len() - n,
    {
        assert(bytes@.skip(n as int).drop_first() =~= bytes@.skip(n + 1));
        n += 1;
    }
    let name = vstd::slice::slice_subrange(bytes.as_slice(), 0, n);
    assert(name@ =~= bytes@.take(zero_at(bytes@)));
    match crate::utf8::strict_text(name) {
        Some(text) => text,
        None => "host".to_owned(),
    }
}

} // verus!
