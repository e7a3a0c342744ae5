//! Text polishing: with `--polish`, the text fields of a payload go through a
//! language model for editorial cleanup before the payload is sent to Coda.
//!
//! Here stand which fields are polished, the request and the reading of the
//! model's answer, and the walk over the fields as a state machine; the
//! caller makes the calls.
use vstd::prelude::*;
use crate::error::{CodaError, CodaErrorV};
use crate::json::{
    Json, JsonV, entries_view, items_view, push_entry, push_item, object_of, array_of, lookup, obj_insert, str_eq,
    find_key, exec_keys, keys_of, key_index, lemma_object_keys, lemma_object_view, lemma_array_view,
};
use crate::text::{chars_of, decimal, extend_str, push_decimal, string_of, string_views, trim, utf8_len, utf8_len_exec};

verus! {

/// The Messages API endpoint of the model.
pub const ANTHROPIC_API_URL: &'static str = "https://api.anthropic.com/v1/messages";

/// Minimum text length, in bytes, to bother polishing (skip titles, short labels, etc.)
pub const MIN_POLISH_LEN: usize = 20;

/// The editorial rules the model applies when the project has none of its own.
pub const DEFAULT_STYLE_GUIDE: &'static str = "You are a precise text editor. Apply these rules surgically — change ONLY what violates them:

- Use the Oxford comma (e.g., \"red, white, and blue\")
- American English spelling (e.g., \"color\" not \"colour\")
- Spell out numbers under 10; use numerals for 10 and above
- Use em dashes (—) for parenthetical asides, not hyphens or double hyphens
- Use en dashes (–) for ranges (e.g., \"10–20\")
- No double spaces after periods
- Capitalize the first word after a colon only if it begins a complete sentence
- Use title case for headings (capitalize major words)
- Ensure subject-verb agreement
- Fix run-on sentences and comma splices
- Preserve all markdown formatting, links, code blocks, and structure exactly
- Do NOT rewrite for style, tone, or brevity — only fix mechanical errors
- Do NOT add or remove content, headings, or bullet points
- If the text has no errors, return it unchanged

Return ONLY the corrected text. No commentary, no explanations, no wrapping.";

/// A text field of a payload that may be polished.
#[derive(PartialEq, Eq, Structural, Clone, Copy)]
pub enum PolishTarget {
    /// The payload's `content`.
    Content,
    /// The `content` of the operation at this index of `operations`.
    Operation(usize),
    /// The `content` of the page at this index of `pages`.
    Page(usize),
}

/// The JSON pointer of a target.
pub open spec fn target_pointer(t: PolishTarget) -> Seq<char> {
    match t {
        PolishTarget::Content => "/content"@,
        PolishTarget::Operation(i) => "/operations/"@ + decimal(i as nat) + "/content"@,
        PolishTarget::Page(i) => "/pages/"@ + decimal(i as nat) + "/content"@,
    }
}

/// The `content` of the item at `i` of the array under `key`.
pub open spec fn item_content(v: JsonV, key: Seq<char>, i: int) -> Option<JsonV> {
    match v.get(key) {
        Some(a) => match a.at(i) {
            Some(item) => item.get("content"@),
            None => None,
        },
        None => None,
    }
}

/// The value a target points to.
pub open spec fn target_get(v: JsonV, t: PolishTarget) -> Option<JsonV> {
    match t {
        PolishTarget::Content => v.get("content"@),
        PolishTarget::Operation(i) => item_content(v, "operations"@, i as int),
        PolishTarget::Page(i) => item_content(v, "pages"@, i as int),
    }
}

/// Whether a value is a string.
pub open spec fn is_str(v: Option<JsonV>) -> bool {
    v matches Some(JsonV::Str(_))
}

/// The markdown operations of a `content_modify` payload with string content.
pub open spec fn operation_targets(ops: Seq<JsonV>) -> Seq<PolishTarget>
    decreases ops.len(),
{
    if ops.len() == 0 {
        Seq::empty()
    } else {
        let rest = operation_targets(ops.drop_last());
        let op = ops.last();
        if op.get_str("blockType"@) == Some("markdown"@) && is_str(op.get("content"@)) {
            rest.push(PolishTarget::Operation((ops.len() - 1) as usize))
        } else {
            rest
        }
    }
}

/// The pages of a `doc_scaffold` payload with string content.
pub open spec fn page_targets(pages: Seq<JsonV>) -> Seq<PolishTarget>
    decreases pages.len(),
{
    if pages.len() == 0 {
        Seq::empty()
    } else {
        let rest = page_targets(pages.drop_last());
        if is_str(pages.last().get("content"@)) {
            rest.push(PolishTarget::Page((pages.len() - 1) as usize))
        } else {
            rest
        }
    }
}

/// The fields of a payload worth polishing for a tool: the markdown
/// operations of `content_modify`, the content of `page_create_with_content`,
/// the page contents of `doc_scaffold`, and for any other tool a `content` of
/// at least twenty bytes.
pub open spec fn collect_targets(tool: Seq<char>, payload: JsonV) -> Seq<PolishTarget> {
    if tool == "content_modify"@ {
        match payload.get_array("operations"@) {
            Some(ops) => operation_targets(ops),
            None => Seq::empty(),
        }
    } else if tool == "page_create_with_content"@ {
        if is_str(payload.get("content"@)) { seq![PolishTarget::Content] } else { Seq::empty() }
    } else if tool == "doc_scaffold"@ {
        match payload.get_array("pages"@) {
            Some(ps) => page_targets(ps),
            None => Seq::empty(),
        }
    } else {
        match payload.get_str("content"@) {
            Some(s) => if utf8_len(s) >= 20 { seq![PolishTarget::Content] } else { Seq::empty() },
            None => Seq::empty(),
        }
    }
}

fn is_markdown_op(op: &Json) -> (r: bool)
    ensures
        r == (op@.get_str("blockType"@) == Some("markdown"@) && is_str(op@.get("content"@))),
{
    let md = match op.get_str("blockType") {
        Some(bt) => str_eq(bt, "markdown"),
        None => false,
    };
    let has = match op.get("content") {
        Some(c) => c.as_str().is_some(),
        None => false,
    };
    md && has
}

fn has_str_content(v: &Json) -> (r: bool)
    ensures
        r == is_str(v@.get("content"@)),
{
    match v.get("content") {
        Some(c) => c.as_str().is_some(),
        None => false,
    }
}

/// The targets of a tool's payload, in order.
pub fn polish_targets(tool_name: &str, payload: &Json) -> (r: Vec<PolishTarget>)
    ensures
        r@ == collect_targets(tool_name@, payload@),
{
    if str_eq(tool_name, "content_modify") {
        let mut out: Vec<PolishTarget> = Vec::new();
        match payload.get_array("operations") {
            Some(ops) => {
                let ghost ov = items_view(ops@);
                let mut i: usize = 0;
                while i < ops.len()
                    invariant
                        i <= ops.len(),
                        ov == items_view(ops@),
                        out@ == operation_targets(ov.take(i as int)),
                    decreases ops.len() - i,
                {
                    assert(ov.take(i + 1).drop_last() =~= ov.take(i as int));
                    assert(ov.take(i + 1).last() == ops@[i as int]@);
                    if is_markdown_op(&ops[i]) {
                        out.push(PolishTarget::Operation(i));
                    }
                    i = i + 1;
                }
                assert(ov.take(ops.len() as int) =~= ov);
            },
            None => {},
        }
        out
    } else if str_eq(tool_name, "page_create_with_content") {
        let mut out: Vec<PolishTarget> = Vec::new();
        if has_str_content(payload) {
            out.push(PolishTarget::Content);
        }
        assert(out@ =~= collect_targets(tool_name@, payload@));
        out
    } else if str_eq(tool_name, "doc_scaffold") {
        let mut out: Vec<PolishTarget> = Vec::new();
        match payload.get_array("pages") {
            Some(ps) => {
                let ghost pv = items_view(ps@);
                let mut i: usize = 0;
                while i < ps.len()
                    invariant
                        i <= ps.len(),
                        pv == items_view(ps@),
                        out@ == page_targets(pv.take(i as int)),
                    decreases ps.len() - i,
                {
                    assert(pv.take(i + 1).drop_last() =~= pv.take(i as int));
                    assert(pv.take(i + 1).last() == ps@[i as int]@);
                    if has_str_content(&ps[i]) {
                        out.push(PolishTarget::Page(i));
                    }
                    i = i + 1;
                }
                assert(pv.take(ps.len() as int) =~= pv);
            },
            None => {},
        }
        out
    } else {
        let mut out: Vec<PolishTarget> = Vec::new();
        match payload.get_str("content") {
            Some(s) => {
                let c = chars_of(s);
                if utf8_len_exec(c.as_slice(), 20) >= 20 {
                    out.push(PolishTarget::Content);
                }
            },
            None => {},
        }
        assert(out@ =~= collect_targets(tool_name@, payload@));
        out
    }
}

fn pointer_of(t: PolishTarget) -> (r: String)
    ensures
        r@ == target_pointer(t),
{
    let mut v: Vec<char> = Vec::new();
    match t {
        PolishTarget::Content => extend_str(&mut v, "/content"),
        PolishTarget::Operation(i) => {
            extend_str(&mut v, "/operations/");
            push_decimal(&mut v, i as u64);
            extend_str(&mut v, "/content");
        },
        PolishTarget::Page(i) => {
            extend_str(&mut v, "/pages/");
            push_decimal(&mut v, i as u64);
            extend_str(&mut v, "/content");
        },
    }
    assert(v@ =~= target_pointer(t));
    string_of(v.as_slice())
}

/// Collect JSON pointer paths to text fields that should be polished.
pub fn collect_polish_paths(tool_name: &str, payload: &Json) -> (r: Vec<String>)
    ensures
        string_views(r@) == collect_targets(tool_name@, payload@).map_values(|t: PolishTarget| target_pointer(t)),
{
    let ts = polish_targets(tool_name, payload);
    let ghost want = ts@.map_values(|t: PolishTarget| target_pointer(t));
    let mut out: Vec<String> = Vec::new();
    let mut i: usize = 0;
    while i < ts.len()
        invariant
            i <= ts.len(),
            want == ts@.map_values(|t: PolishTarget| target_pointer(t)),
            string_views(out@) == want.take(i as int),
        decreases ts.len() - i,
    {
        let p = pointer_of(ts[i]);
        let ghost before = out@;
        out.push(p);
        assert(string_views(out@) =~= string_views(before).push(target_pointer(ts@[i as int])));
        assert(string_views(out@) =~= want.take(i + 1));
        i = i + 1;
    }
    assert(want.take(ts.len() as int) =~= want);
    out
}

/// The style guide: the project's own where its file has text, else the
/// default rules.
pub open spec fn style_guide_spec(file: Option<Seq<char>>) -> Seq<char> {
    match file {
        Some(c) => if trim(c).len() > 0 { c } else { DEFAULT_STYLE_GUIDE@ },
        None => DEFAULT_STYLE_GUIDE@,
    }
}

/// Load style guide: the contents of `.coda/style-guide.md` where it could be
/// read, else DEFAULT_STYLE_GUIDE.
pub fn style_guide(file: Option<&str>) -> (r: String)
    ensures
        r@ == style_guide_spec(match file { Some(c) => Some(c@), None => None }),
{
    match file {
        Some(c) => {
            let t = crate::text::trim_str(c);
            if !t.as_str().is_empty() {
                c.to_owned()
            } else {
                DEFAULT_STYLE_GUIDE.to_owned()
            }
        },
        None => DEFAULT_STYLE_GUIDE.to_owned(),
    }
}

/// The request that asks the model to polish a text.
pub open spec fn polish_request_spec(model: Seq<char>, text: Seq<char>, guide: Seq<char>) -> JsonV {
    JsonV::Object(seq![
        ("max_tokens"@, JsonV::Number("4096"@)),
        ("messages"@, JsonV::Array(seq![JsonV::Object(seq![
            ("content"@, JsonV::Str(guide + "\n\n---\n\nText to polish:\n\n"@ + text)),
            ("role"@, JsonV::Str("user"@)),
        ])])),
        ("model"@, JsonV::Str(model)),
    ])
}

pub fn polish_request(model: &str, text: &str, guide: &str) -> (r: Json)
    ensures
        r@ == polish_request_spec(model@, text@, guide@),
{
    let mut content: Vec<char> = Vec::new();
    extend_str(&mut content, guide);
    extend_str(&mut content, "\n\n---\n\nText to polish:\n\n");
    extend_str(&mut content, text);
    let mut msg: Vec<(String, Json)> = Vec::new();
    push_entry(&mut msg, "content", Json::str_of(content.as_slice()));
    push_entry(&mut msg, "role", Json::str("user"));
    let ghost mv = seq![
        ("content"@, JsonV::Str(guide@ + "\n\n---\n\nText to polish:\n\n"@ + text@)),
        ("role"@, JsonV::Str("user"@)),
    ];
    assert(content@ =~= guide@ + "\n\n---\n\nText to polish:\n\n"@ + text@);
    assert(entries_view(msg@) =~= mv);
    let mut msgs: Vec<Json> = Vec::new();
    push_item(&mut msgs, object_of(msg));
    assert(items_view(msgs@) =~= seq![JsonV::Object(mv)]);
    let mut es: Vec<(String, Json)> = Vec::new();
    push_entry(&mut es, "max_tokens", Json::Number("4096".to_owned()));
    push_entry(&mut es, "messages", array_of(msgs));
    push_entry(&mut es, "model", Json::str(model));
    assert(entries_view(es@) =~= polish_request_spec(model@, text@, guide@)->Object_0);
    object_of(es)
}

/// The error when no key for the model is set.
pub open spec fn missing_key_message() -> Seq<char> {
    "ANTHROPIC_API_KEY not set. Required for --polish.\nSet it: export ANTHROPIC_API_KEY=sk-ant-..."@
}

pub fn missing_key_error() -> (e: CodaError)
    ensures
        e@ == CodaErrorV::Polish(missing_key_message()),
{
    CodaError::Polish("ANTHROPIC_API_KEY not set. Required for --polish.\nSet it: export ANTHROPIC_API_KEY=sk-ant-...".to_owned())
}

/// The text of the model's first content block.
pub open spec fn first_text(body: JsonV) -> Option<Seq<char>> {
    match body.get_array("content"@) {
        Some(blocks) => if blocks.len() > 0 { blocks[0].get_str("text"@) } else { None },
        None => None,
    }
}

/// What the model's answer comes to: for a status of 400 or more, an error
/// with its message; else the text of the first content block, or an error
/// for an answer of another shape.
pub open spec fn polish_reply_spec(status: u16, body: JsonV) -> Result<Seq<char>, CodaErrorV> {
    if status >= 400 {
        let msg = match body.get("error"@) {
            Some(e) => match e.get_str("message"@) { Some(m) => m, None => "Unknown error"@ },
            None => "Unknown error"@,
        };
        Err(CodaErrorV::Polish("Anthropic API error ("@ + decimal(status as nat) + "): "@ + msg))
    } else {
        match first_text(body) {
            Some(t) => Ok(t),
            None => Err(CodaErrorV::Polish("Unexpected Anthropic response format"@)),
        }
    }
}

pub fn polish_reply(status: u16, body: &Json) -> (r: Result<String, CodaError>)
    ensures
        match r { Ok(t) => Ok(t@), Err(e) => Err(e@) } == polish_reply_spec(status, body@),
{
    if status >= 400 {
        let msg: &str = match body.get("error") {
            Some(e) => match e.get_str("message") { Some(m) => m, None => "Unknown error" },
            None => "Unknown error",
        };
        let mut v: Vec<char> = Vec::new();
        extend_str(&mut v, "Anthropic API error (");
        push_decimal(&mut v, status as u64);
        extend_str(&mut v, "): ");
        extend_str(&mut v, msg);
        assert(v@ =~= "Anthropic API error ("@ + decimal(status as nat) + "): "@ + msg@);
        return Err(CodaError::Polish(string_of(v.as_slice())));
    }
    let text = match body.get_array("content") {
        Some(blocks) => if blocks.len() > 0 { blocks[0].get_str("text") } else { None },
        None => None,
    };
    match text {
        Some(t) => Ok(t.to_owned()),
        None => Err(CodaError::Polish("Unexpected Anthropic response format".to_owned())),
    }
}

/// The `content` of an object set to `x`; any other value stays as it is.
pub open spec fn with_content(v: JsonV, x: JsonV) -> JsonV {
    match v {
        JsonV::Object(es) => JsonV::Object(obj_insert(es, "content"@, x)),
        _ => v,
    }
}

/// The `content` of the item at `i` of the array under `key` set to `x`.
pub open spec fn with_item_content(v: JsonV, key: Seq<char>, i: int, x: JsonV) -> JsonV {
    match v {
        JsonV::Object(es) => match key_index(keys_of(es), key) {
            Some(k) => match es[k].1 {
                JsonV::Array(items) => if 0 <= i < items.len() {
                    JsonV::Object(es.update(k, (es[k].0, JsonV::Array(items.update(i, with_content(items[i], x))))))
                } else {
                    v
                },
                _ => v,
            },
            None => v,
        },
        _ => v,
    }
}

/// The payload with the value a target points to set to `x`.
pub open spec fn target_set(v: JsonV, t: PolishTarget, x: JsonV) -> JsonV {
    match t {
        PolishTarget::Content => with_content(v, x),
        PolishTarget::Operation(i) => with_item_content(v, "operations"@, i as int, x),
        PolishTarget::Page(i) => with_item_content(v, "pages"@, i as int, x),
    }
}

fn set_content(v: Json, x: Json) -> (r: Json)
    ensures
        r@ == with_content(v@, x@),
{
    match v {
        Json::Object(_) => {
            let mut w = v;
            w.insert("content", x);
            w
        },
        _ => v,
    }
}

fn set_item_content(v: Json, key: &str, i: usize, x: Json) -> (r: Json)
    ensures
        r@ == with_item_content(v@, key@, i as int, x@),
{
    let ghost vv = v@;
    match v {
        Json::Object(mut es) => {
            proof {
                lemma_object_keys(es);
                lemma_object_view(es);
            }
            let ghost ev = entries_view(es@);
            match find_key(&es, key) {
                Some(k) => {
                    let (name, inner) = es.remove(k);
                    assert(name@ == ev[k as int].0);
                    assert(inner@ == ev[k as int].1);
                    match inner {
                        Json::Array(mut items) => {
                            proof { lemma_array_view(items); }
                            let ghost iv = items_view(items@);
                            if i < items.len() {
                                let item = items.remove(i);
                                let changed = set_content(item, x);
                                let ghost cv = changed@;
                                items.insert(i, changed);
                                assert(items_view(items@) =~= iv.update(i as int, cv));
                            }
                            proof { lemma_array_view(items); }
                            let arr = Json::Array(items);
                            let ghost av = arr@;
                            es.insert(k, (name, arr));
                            assert(entries_view(es@) =~= ev.update(k as int, (ev[k as int].0, av)));
                            proof { lemma_object_view(es); }
                            let r = Json::Object(es);
                            proof {
                                if i >= iv.len() {
                                    assert(av == JsonV::Array(iv));
                                    assert(ev.update(k as int, (ev[k as int].0, av)) =~= ev);
                                }
                            }
                            r
                        },
                        other => {
                            let ghost ov = other@;
                            es.insert(k, (name, other));
                            assert(entries_view(es@) =~= ev);
                            proof { lemma_object_view(es); }
                            Json::Object(es)
                        },
                    }
                },
                None => {
                    proof { lemma_object_view(es); }
                    Json::Object(es)
                },
            }
        },
        other => other,
    }
}

fn set_target(v: Json, t: PolishTarget, x: Json) -> (r: Json)
    ensures
        r@ == target_set(v@, t, x@),
{
    match t {
        PolishTarget::Content => set_content(v, x),
        PolishTarget::Operation(i) => set_item_content(v, "operations", i, x),
        PolishTarget::Page(i) => set_item_content(v, "pages", i, x),
    }
}

fn get_item_content<'a>(v: &'a Json, key: &str, i: usize) -> (r: Option<&'a Json>)
    ensures
        match r { Some(x) => Some(x@), None => None } == item_content(v@, key@, i as int),
{
    match v.get(key) {
        Some(a) => match a.at(i) {
            Some(item) => item.get("content"),
            None => None,
        },
        None => None,
    }
}

fn target_get_exec(v: &Json, t: PolishTarget) -> (r: Option<&Json>)
    ensures
        match r { Some(x) => Some(x@), None => None } == target_get(v@, t),
{
    match t {
        PolishTarget::Content => v.get("content"),
        PolishTarget::Operation(i) => get_item_content(v, "operations", i),
        PolishTarget::Page(i) => get_item_content(v, "pages", i),
    }
}

/// The text a target holds when it is long enough to polish.
pub open spec fn eligible(v: JsonV, t: PolishTarget) -> Option<Seq<char>> {
    match target_get(v, t) {
        Some(JsonV::Str(s)) => if utf8_len(s) >= 20 { Some(s) } else { None },
        _ => None,
    }
}

/// The first target from `from` on that holds a text long enough to polish.
pub open spec fn first_eligible(v: JsonV, ts: Seq<PolishTarget>, from: int) -> Option<int>
    decreases ts.len() - from,
{
    if from < 0 || from >= ts.len() {
        None
    } else if eligible(v, ts[from]) is Some {
        Some(from)
    } else {
        first_eligible(v, ts, from + 1)
    }
}

pub proof fn lemma_first_eligible(v: JsonV, ts: Seq<PolishTarget>, from: int)
    ensures
        first_eligible(v, ts, from) matches Some(k) ==> from <= k < ts.len() && eligible(v, ts[k]) is Some,
    decreases ts.len() - from,
{
    if 0 <= from < ts.len() && eligible(v, ts[from]) is None {
        lemma_first_eligible(v, ts, from + 1);
    }
}

/// What the polishing asks next.
pub enum PolishStep {
    /// Ask the model to polish this text and hand back its answer.
    Polish(String),
    /// The walk is over: how many fields changed, or the error that stopped it.
    Finish(Result<u64, CodaError>),
}

pub enum PolishStepV {
    Polish(Seq<char>),
    Finish(Result<u64, CodaErrorV>),
}

impl View for PolishStep {
    type V = PolishStepV;

    open spec fn view(&self) -> PolishStepV {
        match self {
            PolishStep::Polish(t) => PolishStepV::Polish(t@),
            PolishStep::Finish(Ok(n)) => PolishStepV::Finish(Ok(*n)),
            PolishStep::Finish(Err(e)) => PolishStepV::Finish(Err(e@)),
        }
    }
}

/// The walk over the fields of one payload.
pub struct Polisher {
    pub payload: Json,
    pub targets: Vec<PolishTarget>,
    /// The target whose text is with the model.
    pub current: usize,
    pub count: u64,
    pub done: bool,
}

/// The step at target `from` on: the next text to polish, or the count.
pub open spec fn step_from(v: JsonV, ts: Seq<PolishTarget>, from: int, count: u64) -> PolishStepV {
    match first_eligible(v, ts, from) {
        Some(k) => PolishStepV::Polish(eligible(v, ts[k])->0),
        None => PolishStepV::Finish(Ok(count)),
    }
}

impl Polisher {
    pub open spec fn wf(self) -> bool {
        &&& self.count <= self.current
        &&& !self.done ==> self.current < self.targets.len() && eligible(self.payload@, self.targets@[self.current as int]) is Some
    }

    fn seek(&mut self, from: usize) -> (r: PolishStep)
        requires
            old(self).count <= from,
            from <= old(self).targets.len(),
        ensures
            final(self).payload == old(self).payload,
            final(self).targets == old(self).targets,
            final(self).count == old(self).count,
            final(self).wf(),
            r@ == step_from(old(self).payload@, old(self).targets@, from as int, old(self).count),
            match first_eligible(old(self).payload@, old(self).targets@, from as int) {
                Some(k) => !final(self).done && final(self).current == k,
                None => final(self).done,
            },
    {
        let mut k = from;
        while k < self.targets.len()
            invariant
                from <= k <= self.targets.len(),
                self.count <= from,
                self.payload == old(self).payload,
                self.targets == old(self).targets,
                self.count == old(self).count,
                first_eligible(self.payload@, self.targets@, from as int)
                    == first_eligible(self.payload@, self.targets@, k as int),
            decreases self.targets.len() - k,
        {
            let t = self.targets[k];
            let text = match target_get_exec(&self.payload, t) {
                Some(x) => match x.as_str() {
                    Some(s) => {
                        let c = chars_of(s);
                        if utf8_len_exec(c.as_slice(), 20) >= 20 { Some(s.to_owned()) } else { None }
                    },
                    None => None,
                },
                None => None,
            };
            match text {
                Some(s) => {
                    assert(eligible(self.payload@, self.targets@[k as int]) == Some(s@));
                    self.current = k;
                    self.done = false;
                    return PolishStep::Polish(s);
                },
                None => {
                    assert(eligible(self.payload@, self.targets@[k as int]) is None);
                },
            }
            k = k + 1;
        }
        self.done = true;
        self.current = from;
        PolishStep::Finish(Ok(self.count))
    }

    /// Finds the fields of the payload to polish for the tool and asks for the
    /// first text.
    pub fn start(tool_name: &str, payload: Json) -> (r: (Polisher, PolishStep))
        ensures
            r.0.payload@ == payload@,
            r.0.targets@ == collect_targets(tool_name@, payload@),
            r.0.count == 0,
            r.0.wf(),
            r.1@ == step_from(payload@, collect_targets(tool_name@, payload@), 0, 0),
            r.1 is Polish <==> !r.0.done,
    {
        let targets = polish_targets(tool_name, &payload);
        let mut p = Polisher { payload, targets, current: 0, count: 0, done: true };
        let step = p.seek(0);
        proof { lemma_first_eligible(p.payload@, p.targets@, 0); }
        (p, step)
    }

    /// Hands back the model's answer for the text last asked for: an error
    /// stops the walk; a text that differs and is not empty replaces the field
    /// and counts; then the next text is asked for.
    pub fn next(&mut self, reply: Result<String, CodaError>) -> (r: PolishStep)
        requires
            old(self).wf(),
            !old(self).done,
        ensures
            final(self).targets == old(self).targets,
            final(self).wf(),
            r is Polish <==> !final(self).done,
            ({
                let k = old(self).current as int;
                let sent = eligible(old(self).payload@, old(self).targets@[k])->0;
                match reply {
                    Err(e) => r@ == PolishStepV::Finish(Err(e@)) && final(self).done
                        && final(self).payload@ == old(self).payload@,
                    Ok(p) => {
                        let changed = p@ != sent && p@.len() > 0;
                        let v = if changed {
                            target_set(old(self).payload@, old(self).targets@[k], JsonV::Str(p@))
                        } else {
                            old(self).payload@
                        };
                        let count = if changed { (old(self).count + 1) as u64 } else { old(self).count };
                        &&& final(self).payload@ == v
                        &&& final(self).count == count
                        &&& r@ == step_from(v, old(self).targets@, k + 1, count)
                    },
                }
            }),
    {
        let k = self.current;
        match reply {
            Err(e) => {
                self.done = true;
                PolishStep::Finish(Err(e))
            },
            Ok(p) => {
                let t = self.targets[k];
                let sent = match target_get_exec(&self.payload, t) {
                    Some(x) => match x.as_str() { Some(s) => s.to_owned(), None => String::new() },
                    None => String::new(),
                };
                assert(sent@ == eligible(old(self).payload@, old(self).targets@[k as int])->0);
                if !str_eq(p.as_str(), sent.as_str()) && !p.as_str().is_empty() {
                    let mut old_payload = Json::Null;
                    std::mem::swap(&mut old_payload, &mut self.payload);
                    self.payload = set_target(old_payload, t, Json::Str(p));
                    self.count = self.count + 1;
                }
                self.seek(k + 1)
            },
        }
    }

    /// The payload as the walk left it.
    pub fn payload(&self) -> (r: &Json)
        ensures
            r@ == self.payload@,
    {
        &self.payload
    }
}

} // verus!
