//! Text handling around the remote vision service: the prompt that asks
//! for a description, the text of a chat reply, and the JSON inside a
//! fenced reply.
use vstd::prelude::*;
use crate::text::{has_prefix, join3, starts_with, trim, trim_ws};

verus! {

/// The prompt that asks for a JSON object with a short name and a description.
pub const IMAGE_DESCRIPTION_PROMPT: &'static str = "请分析这张图片，并以JSON格式回复，包含以下字段：\n1. name: 图片的简短名称（不超过10个字，直接描述主体）\n2. description: 图片的详细描述（包括主要对象、场景、颜色、氛围等）\n\n请只返回JSON，不要包含其他文字。示例格式：\n{\"name\": \"校园动漫场景\", \"description\": \"这是一张...\"}";

/// The part of the focused prompt before the focus.
pub const FOCUS_PROMPT_HEAD: &'static str = "请分析这张图片，并以JSON格式回复，包含以下字段：\n1. name: 图片的简短名称（不超过10个字，直接描述主体）\n2. description: 图片的详细描述（包括主要对象、场景、颜色、氛围等）\n\n【特别关注】：";

/// The part of the focused prompt after the focus.
pub const FOCUS_PROMPT_TAIL: &'static str = "\n\n请只返回JSON，不要包含其他文字。";

/// The description prompt: with a focus that is not blank, the focused
/// prompt around the focus as given; otherwise the plain prompt.
pub fn build_image_description_prompt(focus: Option<&str>) -> (r: String)
    ensures
        (focus matches Some(f) && trim_ws(f@).len() > 0) ==> r@ == FOCUS_PROMPT_HEAD@ + focus->0@ + FOCUS_PROMPT_TAIL@,
        !(focus matches Some(f) && trim_ws(f@).len() > 0) ==> r@ == IMAGE_DESCRIPTION_PROMPT@,
{
    match focus {
        Some(f) => {
            if trim(f).unicode_len() > 0 {
                return join3(FOCUS_PROMPT_HEAD, f, FOCUS_PROMPT_TAIL);
            }
        },
        None => {},
    }
    String::from_str(IMAGE_DESCRIPTION_PROMPT)
}

/// The text of a chat reply: the service's error message if it sent one,
/// else the first choice's content, trimmed; an error when there is none.
pub fn chat_reply_text(error_message: Option<String>, first_content: Option<String>) -> (r: Result<String, String>)
    ensures
        error_message matches Some(m) ==> r == Err::<String, String>(m),
        error_message is None && first_content is None ==> r is Err,
        (error_message is None && first_content is Some) ==> (r matches Ok(t) && t@ == trim_ws(first_content->0@)),
{
    if let Some(m) = error_message {
        return Err(m);
    }
    match first_content {
        Some(c) => Ok(String::from_str(trim(c.as_str()))),
        None => Err(String::from_str("the service returned no content")),
    }
}

/// The name and description of an image from a reply: the trimmed fields
/// of its JSON when both are non-empty, else `fetched-image` and the raw reply.
pub fn description_from_reply(raw: &str, name: Option<&str>, description: Option<&str>) -> (r: (String, String))
    ensures
        (name is Some && name->0@.len() > 0 && description is Some && description->0@.len() > 0) ==> {
            &&& r.0@ == trim_ws(name->0@)
            &&& r.1@ == trim_ws(description->0@)
        },
        !(name is Some && name->0@.len() > 0 && description is Some && description->0@.len() > 0) ==> {
            &&& r.0@ == "fetched-image"@
            &&& r.1@ == raw@
        },
{
    match (name, description) {
        (Some(n), Some(d)) => {
            if n.unicode_len() > 0 && d.unicode_len() > 0 {
                return (String::from_str(trim(n)), String::from_str(trim(d)));
            }
        },
        _ => {},
    }
    (String::from_str("fetched-image"), String::from_str(raw))
}

pub open spec fn fence() -> Seq<char> {
    seq!['`', '`', '`']
}

pub open spec fn json_word() -> Seq<char> {
    seq!['j', 's', 'o', 'n']
}

/// `s` without every leading copy of the non-empty `p`.
pub open spec fn trim_start_seq(s: Seq<char>, p: Seq<char>) -> Seq<char>
    decreases s.len(),
{
    if p.len() > 0 && starts_with(s, p) {
        trim_start_seq(s.skip(p.len() as int), p)
    } else {
        s
    }
}

pub open spec fn occurs_at(s: Seq<char>, p: Seq<char>, i: int) -> bool {
    0 <= i && i + p.len() <= s.len() && s.subrange(i, i + p.len()) == p
}

/// The last position at or before `i` where `p` occurs in `s`.
pub open spec fn last_occurrence(s: Seq<char>, p: Seq<char>, i: int) -> Option<int>
    decreases i + 1,
{
    if i < 0 {
        None
    } else if occurs_at(s, p, i) {
        Some(i)
    } else {
        last_occurrence(s, p, i - 1)
    }
}

/// A reply with its Markdown code fence taken off: trimmed; and when it
/// starts with a fence, the opening fences and `json` words dropped, then
/// everything from the last closing fence on.
pub open spec fn unfenced(raw: Seq<char>) -> Seq<char> {
    let t = trim_ws(raw);
    if starts_with(t, fence()) {
        let u = trim_ws(trim_start_seq(trim_start_seq(t, fence()), json_word()));
        match last_occurrence(u, fence(), u.len() - 3) {
            Some(e) => trim_ws(u.subrange(0, e)),
            None => u,
        }
    } else {
        t
    }
}

proof fn lemma_last_occurrence_occurs(s: Seq<char>, p: Seq<char>, i: int)
    ensures
        last_occurrence(s, p, i) matches Some(j) ==> occurs_at(s, p, j) && j <= i,
    decreases i + 1,
{
    if i >= 0 && !occurs_at(s, p, i) {
        lemma_last_occurrence_occurs(s, p, i - 1);
    }
}

fn trim_start_str<'a>(s: &'a str, p: &str) -> (r: &'a str)
    requires
        p@.len() > 0,
    ensures
        r@ == trim_start_seq(s@, p@),
{
    let m = s.unicode_len();
    let n = p.unicode_len();
    let mut start: usize = 0;
    assert(s@.skip(0) =~= s@);
    while n <= m - start && has_prefix(s.substring_char(start, m), p)
        invariant
            m == s@.len(),
            n == p@.len(),
            n > 0,
            start <= m,
            trim_start_seq(s@.skip(start as int), p@) == trim_start_seq(s@, p@),
        decreases m - start,
    {
        proof {
            assert(s@.subrange(start as int, m as int) =~= s@.skip(start as int));
            assert(s@.skip(start as int).skip(n as int) =~= s@.skip(start + n));
        }
        start = start + n;
    }
    proof {
        assert(s@.subrange(start as int, m as int) =~= s@.skip(start as int));
    }
    s.substring_char(start, m)
}

fn rfind_str(s: &str, p: &str) -> (r: Option<usize>)
    ensures
        r is Some <==> last_occurrence(s@, p@, s@.len() - p@.len()) is Some,
        r matches Some(i) ==> last_occurrence(s@, p@, s@.len() - p@.len()) == Some(i as int),
{
    let m = s.unicode_len();
    let n = p.unicode_len();
    if n > m {
        proof {
            reveal_with_fuel(last_occurrence, 2);
        }
        return None;
    }
    let mut i: usize = m - n;
    loop
        invariant
            m == s@.len(),
            n == p@.len(),
            n <= m,
            i <= m - n,
            last_occurrence(s@, p@, (m - n) as int) == last_occurrence(s@, p@, i as int),
        decreases i,
    {
        let here = s.substring_char(i, i + n);
        if crate::text::str_eq(here, p) {
            return Some(i);
        }
        if i == 0 {
            proof {
                reveal_with_fuel(last_occurrence, 2);
            }
            return None;
        }
        i = i - 1;
    }
}

/// The reply with its code fence taken off.
pub fn strip_json_fences(raw: &str) -> (r: String)
    ensures
        r@ == unfenced(raw@),
{
    proof {
        reveal_strlit("```");
        reveal_strlit("json");
        assert("```"@ =~= fence());
        assert("json"@ =~= json_word());
    }
    let t = trim(raw);
    if !has_prefix(t, "```") {
        return String::from_str(t);
    }
    let u = trim(trim_start_str(trim_start_str(t, "```"), "json"));
    proof {
        lemma_last_occurrence_occurs(u@, fence(), u@.len() - 3);
    }
    match rfind_str(u, "```") {
        Some(end) => String::from_str(trim(u.substring_char(0, end))),
        None => String::from_str(u),
    }
}

/// The text of the string field `key` of the JSON object that `raw` holds,
/// or `None` where `raw` is no JSON or the field is no string.
pub uninterp spec fn json_string_field(raw: Seq<char>, key: Seq<char>) -> Option<Seq<char>>;

/// Relies on serde_json::from_str into a Value, with Value::get and
/// Value::as_str: the field read depends on the text and the key alone.
#[verifier::external_body]
fn json_field(raw: &str, key: &str) -> (r: Option<String>)
    ensures
        r is Some <==> json_string_field(raw@, key@) is Some,
        r matches Some(v) ==> json_string_field(raw@, key@) == Some(v@),
{
    let value = serde_json::from_str::<serde_json::Value>(raw).ok()?;
    value.get(key)?.as_str().map(str::to_string)
}

/// The name and description of an image from the reply to the description
/// prompt: the JSON fields `name` and `description` when both are there.
pub fn describe_reply(raw: &str) -> (r: (String, String))
    ensures
        ({
            let n = json_string_field(raw@, "name"@);
            let d = json_string_field(raw@, "description"@);
            if n is Some && n->0.len() > 0 && d is Some && d->0.len() > 0 {
                r.0@ == trim_ws(n->0) && r.1@ == trim_ws(d->0)
            } else {
                r.0@ == "fetched-image"@ && r.1@ == raw@
            }
        }),
{
    let name = json_field(raw, "name");
    let description = json_field(raw, "description");
    let name_ref: Option<&str> = match &name {
        Some(n) => Some(n.as_str()),
        None => None,
    };
    let description_ref: Option<&str> = match &description {
        Some(d) => Some(d.as_str()),
        None => None,
    };
    description_from_reply(raw, name_ref, description_ref)
}

} // verus!
