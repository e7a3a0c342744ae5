//! `page_create_with_content`: create a page, then insert its markdown.
//!
//! Creating the page is critical: when it fails, the operation fails. The
//! content is best effort: when inserting it fails, the page is still returned,
//! marked incomplete, with the error listed.
use vstd::prelude::*;
use crate::commands::compound::{
    Step, StepV, content_payload, content_payload_spec, jstr, result_view, str_array, string_array,
};
use crate::error::{CodaError, CodaErrorV, message_spec};
use crate::json::{Json, JsonV, entries_view, push_entry, object_of, obj_insert};
use crate::text::{extend_str, string_of};

verus! {

#[derive(PartialEq, Eq, Structural, Clone, Copy)]
pub enum PagePhase {
    AwaitPage,
    AwaitContent,
    Done,
}

/// The state of one `page_create_with_content` operation.
pub struct PageWithContent {
    pub phase: PagePhase,
    pub content: Option<String>,
    pub page_result: Json,
}

/// The payload that creates the page.
pub open spec fn page_create_payload_spec(uri: Seq<char>, title: Seq<char>, subtitle: Option<Seq<char>>) -> JsonV {
    JsonV::Object(
        (match subtitle {
            Some(s) => seq![("subtitle"@, jstr(s))],
            None => Seq::empty(),
        }) + seq![("title"@, jstr(title)), ("uri"@, jstr(uri))],
    )
}

/// The page is created with every field it was given: the parent URI, the
/// title, and the subtitle when there is one (and none when there is none).
pub proof fn law_page_create_fields(uri: Seq<char>, title: Seq<char>, subtitle: Option<Seq<char>>)
    ensures
        page_create_payload_spec(uri, title, subtitle).get("uri"@) == Some(JsonV::Str(uri)),
        page_create_payload_spec(uri, title, subtitle).get("title"@) == Some(JsonV::Str(title)),
        page_create_payload_spec(uri, title, subtitle).get("subtitle"@) == match subtitle {
            Some(s) => Some(JsonV::Str(s)),
            None => None,
        },
{
    reveal_strlit("uri");
    reveal_strlit("title");
    reveal_strlit("subtitle");
    let es = page_create_payload_spec(uri, title, subtitle)->Object_0;
    let o: int = if subtitle is Some { 1 } else { 0 };
    assert(es[o].0 == "title"@ && es[o + 1].0 == "uri"@);
    assert forall|j: int| 0 <= j < o implies es[j].0 != "title"@ by { assert(es[j].0[1] != "title"@[1]); }
    crate::json::lemma_lookup_at(es, "title"@, o);
    assert forall|j: int| 0 <= j < o + 1 implies es[j].0 != "uri"@ by { assert(es[j].0[0] != "uri"@[0]); }
    crate::json::lemma_lookup_at(es, "uri"@, o + 1);
    match subtitle {
        Some(sv) => {
            assert(es[0].0 == "subtitle"@);
            crate::json::lemma_lookup_at(es, "subtitle"@, 0);
        },
        None => {
            assert forall|j: int| 0 <= j < es.len() implies crate::json::keys_of(es)[j] != "subtitle"@ by {
                assert(crate::json::keys_of(es)[j] == es[j].0);
                assert(es[j].0[0] != "subtitle"@[0]);
            }
            crate::json::lemma_key_index_none(crate::json::keys_of(es), "subtitle"@);
        },
    }
}

/// The payload that creates a page.
pub fn page_create_payload(uri: &str, title: &str, subtitle: Option<&str>) -> (r: Json)
    ensures
        r@ == page_create_payload_spec(uri@, title@, match subtitle { Some(s) => Some(s@), None => None }),
{
    let mut es: Vec<(String, Json)> = Vec::new();
    match subtitle {
        Some(s) => push_entry(&mut es, "subtitle", Json::str(s)),
        None => {},
    }
    push_entry(&mut es, "title", Json::str(title));
    push_entry(&mut es, "uri", Json::str(uri));
    let ghost sv = match subtitle { Some(s) => Some(s@), None => None };
    assert(entries_view(es@) =~= page_create_payload_spec(uri@, title@, sv)->Object_0);
    object_of(es)
}

/// The page's result once the operation is over: marked complete when nothing
/// failed, with whether the content was written where there was content, and
/// the errors.
pub open spec fn page_finished_spec(res: JsonV, written: Option<bool>, errors: Seq<Seq<char>>) -> JsonV {
    match res {
        JsonV::Object(es0) => {
            let es1 = obj_insert(es0, "complete"@, JsonV::Bool(errors.len() == 0));
            let es2 = match written {
                Some(w) => obj_insert(es1, "contentWritten"@, JsonV::Bool(w)),
                None => es1,
            };
            JsonV::Object(obj_insert(es2, "errors"@, str_array(errors)))
        },
        _ => res,
    }
}

/// The error text of content that could not be written.
pub open spec fn content_error_text(e: CodaError) -> Seq<char> {
    "Content: "@ + message_spec(e)
}

impl PageWithContent {
    /// Reads the payload and asks for the page to be created; a payload without
    /// a string `uri` or `title` ends the operation with a validation error.
    pub fn start(payload: &Json) -> (r: (PageWithContent, Step))
        ensures
            payload@.get_str("uri"@) is None ==> r.0.phase == PagePhase::Done
                && r.1@ == StepV::Finish(Err(CodaErrorV::Validation("Missing required field: uri"@))),
            payload@.get_str("uri"@) is Some && payload@.get_str("title"@) is None ==> r.0.phase == PagePhase::Done
                && r.1@ == StepV::Finish(Err(CodaErrorV::Validation("Missing required field: title"@))),
            payload@.get_str("uri"@) matches Some(uri) ==> (payload@.get_str("title"@) matches Some(title) ==> {
                &&& r.0.phase == PagePhase::AwaitPage
                &&& r.1@ == StepV::Call("page_create"@, page_create_payload_spec(uri, title, payload@.get_str("subtitle"@)), false)
                &&& match payload@.get_str("content"@) {
                    Some(c) => r.0.content matches Some(x) && x@ == c,
                    None => r.0.content is None,
                }
            }),
    {
        let done = PageWithContent { phase: PagePhase::Done, content: None, page_result: Json::Null };
        let uri = match payload.get_str("uri") {
            Some(u) => u,
            None => {
                return (done, Step::Finish(Err(CodaError::Validation("Missing required field: uri".to_owned()))));
            },
        };
        let title = match payload.get_str("title") {
            Some(t) => t,
            None => {
                return (done, Step::Finish(Err(CodaError::Validation("Missing required field: title".to_owned()))));
            },
        };
        let content = match payload.get_str("content") {
            Some(c) => Some(c.to_owned()),
            None => None,
        };
        let create = page_create_payload(uri, title, payload.get_str("subtitle"));
        let m = PageWithContent { phase: PagePhase::AwaitPage, content, page_result: Json::Null };
        (m, Step::Call { tool: "page_create".to_owned(), payload: create, retry: false })
    }

    fn finish(res: Json, written: Option<bool>, errors: &Vec<String>) -> (r: Json)
        ensures
            r@ == page_finished_spec(res@, written, crate::text::string_views(errors@)),
    {
        let mut out = res;
        match out {
            Json::Object(_) => {
                let no_errors = errors.len() == 0;
                out.insert("complete", Json::Bool(no_errors));
                match written {
                    Some(w) => out.insert("contentWritten", Json::Bool(w)),
                    None => {},
                }
                out.insert("errors", string_array(errors));
                out
            },
            _ => out,
        }
    }

    /// Hands back the outcome of the call last asked for and says what comes next.
    /// A failed page creation ends the operation with that error; a created page
    /// without a canvas ends it with an error too; a failed content insert ends it
    /// with the page marked incomplete.
    pub fn next(&mut self, outcome: Result<Json, CodaError>) -> (r: Step)
        requires
            old(self).phase != PagePhase::Done,
        ensures
            old(self).phase == PagePhase::AwaitPage ==> match outcome {
                Err(e) => final(self).phase == PagePhase::Done && r@ == StepV::Finish(Err(e@)),
                Ok(res) => match res@.get_str("canvasUri"@) {
                    None => final(self).phase == PagePhase::Done
                        && r@ == StepV::Finish(Err(CodaErrorV::Other("page_create did not return canvasUri"@))),
                    Some(canvas) => match old(self).content {
                        Some(md) => final(self).phase == PagePhase::AwaitContent && final(self).page_result@ == res@
                            && final(self).content == old(self).content
                            && r@ == StepV::Call("content_modify"@, content_payload_spec(canvas, md@), true),
                        None => final(self).phase == PagePhase::Done
                            && r@ == StepV::Finish(Ok(page_finished_spec(res@, None, Seq::empty()))),
                    },
                },
            },
            old(self).phase == PagePhase::AwaitContent ==> final(self).phase == PagePhase::Done && match outcome {
                Ok(_) => r@ == StepV::Finish(Ok(page_finished_spec(old(self).page_result@, Some(true), Seq::empty()))),
                Err(e) => r@ == StepV::Finish(Ok(page_finished_spec(old(self).page_result@, Some(false),
                    seq![content_error_text(e)]))),
            },
    {
        if self.phase == PagePhase::AwaitPage {
            match outcome {
                Err(e) => {
                    self.phase = PagePhase::Done;
                    Step::Finish(Err(e))
                },
                Ok(res) => {
                    let canvas = match res.get_str("canvasUri") {
                        Some(c) => c.to_owned(),
                        None => {
                            self.phase = PagePhase::Done;
                            return Step::Finish(Err(CodaError::Other("page_create did not return canvasUri".to_owned())));
                        },
                    };
                    match &self.content {
                        Some(md) => {
                            let p = content_payload(canvas.as_str(), md.as_str());
                            self.phase = PagePhase::AwaitContent;
                            self.page_result = res;
                            Step::Call { tool: "content_modify".to_owned(), payload: p, retry: true }
                        },
                        None => {
                            self.phase = PagePhase::Done;
                            let errors: Vec<String> = Vec::new();
                            assert(crate::text::string_views(errors@) =~= Seq::<Seq<char>>::empty());
                            Step::Finish(Ok(Self::finish(res, None, &errors)))
                        },
                    }
                },
            }
        } else {
            self.phase = PagePhase::Done;
            let res = self.page_result.duplicate();
            match outcome {
                Ok(_) => {
                    let errors: Vec<String> = Vec::new();
                    assert(crate::text::string_views(errors@) =~= Seq::<Seq<char>>::empty());
                    Step::Finish(Ok(Self::finish(res, Some(true), &errors)))
                },
                Err(e) => {
                    let mut v: Vec<char> = Vec::new();
                    extend_str(&mut v, "Content: ");
                    let msg = e.message();
                    extend_str(&mut v, msg.as_str());
                    let mut errors: Vec<String> = Vec::new();
                    errors.push(string_of(v.as_slice()));
                    assert(crate::text::string_views(errors@) =~= seq![content_error_text(e)]);
                    Step::Finish(Ok(Self::finish(res, Some(false), &errors)))
                },
            }
        }
    }
}

} // verus!
