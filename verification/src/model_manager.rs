//! The model catalogue: the model record, the built-in default models, and
//! the rule that keeps only chat-completion models from a fetched list.
//! Fetching and caching the list is I/O and lives outside the library.

use vstd::prelude::*;

use crate::config::opt_str_view;
use crate::config::opt_strs_view;

verus! {

/// One model of the catalogue.
#[derive(Debug, Clone)]
pub struct ModelInfo {
    pub id: String,
    pub name: String,
    pub friendly_name: Option<String>,
    pub publisher: Option<String>,
    pub summary: Option<String>,
    pub task: Option<String>,
    pub tags: Option<Vec<String>>,
}

/// The mathematical view of a model record.
pub struct ModelInfoView {
    pub id: Seq<char>,
    pub name: Seq<char>,
    pub friendly_name: Option<Seq<char>>,
    pub publisher: Option<Seq<char>>,
    pub summary: Option<Seq<char>>,
    pub task: Option<Seq<char>>,
    pub tags: Option<Seq<Seq<char>>>,
}

impl View for ModelInfo {
    type V = ModelInfoView;

    open spec fn view(&self) -> ModelInfoView {
        ModelInfoView {
            id: self.id@,
            name: self.name@,
            friendly_name: opt_str_view(self.friendly_name),
            publisher: opt_str_view(self.publisher),
            summary: opt_str_view(self.summary),
            task: opt_str_view(self.task),
            tags: opt_strs_view(self.tags),
        }
    }
}

/// The models stored in the local cache file.
#[derive(Debug, Clone)]
pub struct CachedModels {
    pub models: Vec<ModelInfo>,
}

/// The views of a sequence of model records.
pub open spec fn mi_views(s: Seq<ModelInfo>) -> Seq<ModelInfoView> {
    s.map_values(|m: ModelInfo| m@)
}

/// The task every usable model must have.
pub open spec fn chat_task() -> Seq<char> {
    "chat-completion"@
}

/// One built-in model record.
pub open spec fn default_model_view(
    id: Seq<char>,
    friendly_name: Seq<char>,
    summary: Seq<char>,
) -> ModelInfoView {
    ModelInfoView {
        id: id,
        name: id,
        friendly_name: Some(friendly_name),
        publisher: None,
        summary: Some(summary),
        task: Some(chat_task()),
        tags: None,
    }
}

/// The built-in models used when nothing was fetched or cached.
pub open spec fn default_models_spec() -> Seq<ModelInfoView> {
    seq![
        default_model_view(
            "gpt-4o-mini"@,
            "OpenAI GPT-4o mini"@,
            "Fast & cost-effective, great for most tasks"@,
        ),
        default_model_view("gpt-4o"@, "OpenAI GPT-4o"@, "High quality, most capable model"@),
        default_model_view(
            "Phi-3-mini-128k-instruct"@,
            "Phi-3 mini 128k"@,
            "Lightweight, efficient open model"@,
        ),
        default_model_view("Mistral-large"@, "Mistral Large"@, "Powerful open-source model"@),
    ]
}

fn mk_default(id: &str, friendly_name: &str, summary: &str) -> (m: ModelInfo)
    ensures
        m@ == default_model_view(id@, friendly_name@, summary@),
{
    ModelInfo {
        id: id.to_owned(),
        name: id.to_owned(),
        friendly_name: Some(friendly_name.to_owned()),
        publisher: None,
        summary: Some(summary.to_owned()),
        task: Some("chat-completion".to_owned()),
        tags: None,
    }
}

/// The built-in model list.
pub fn get_default_models() -> (r: Vec<ModelInfo>)
    ensures
        mi_views(r@) == default_models_spec(),
{
    let mut r: Vec<ModelInfo> = Vec::new();
    r.push(
        mk_default("gpt-4o-mini", "OpenAI GPT-4o mini", "Fast & cost-effective, great for most tasks"),
    );
    r.push(mk_default("gpt-4o", "OpenAI GPT-4o", "High quality, most capable model"));
    r.push(
        mk_default("Phi-3-mini-128k-instruct", "Phi-3 mini 128k", "Lightweight, efficient open model"),
    );
    r.push(mk_default("Mistral-large", "Mistral Large", "Powerful open-source model"));
    proof {
        assert(mi_views(r@) =~= default_models_spec());
    }
    r
}

// ---------------------------------------------------------------------------
// Keeping the chat-completion models
// ---------------------------------------------------------------------------

/// Whether a model is a chat-completion model.
pub open spec fn is_chat_model(m: ModelInfoView) -> bool {
    m.task == Some(chat_task())
}

/// The chat-completion models of a list, in order.
pub open spec fn chat_filter(s: Seq<ModelInfoView>) -> Seq<ModelInfoView>
    decreases s.len(),
{
    if s.len() == 0 {
        seq![]
    } else {
        chat_filter(s.drop_last()) + (if is_chat_model(s.last()) {
            seq![s.last()]
        } else {
            seq![]
        })
    }
}

fn has_chat_task(m: &ModelInfo) -> (r: bool)
    ensures
        r == is_chat_model(m@),
{
    match &m.task {
        Some(t) => t.eq(&"chat-completion".to_owned()),
        None => false,
    }
}

/// Keeps the chat-completion models of a fetched list; when none are left,
/// the built-in models take their place.
#[verifier::loop_isolation(false)]
pub fn select_chat_models(models: Vec<ModelInfo>) -> (r: Vec<ModelInfo>)
    ensures
        ({
            let f = chat_filter(mi_views(models@));
            mi_views(r@) == if f.len() == 0 {
                default_models_spec()
            } else {
                f
            }
        }),
{
    let ghost orig = mi_views(models@);
    let mut rest = models;
    let mut kept: Vec<ModelInfo> = Vec::new();
    let ghost total = orig.len();
    proof {
        assert(orig.take(0) =~= Seq::<ModelInfoView>::empty());
        assert(mi_views(rest@) =~= orig.skip(0));
    }
    let ghost mut i: int = 0;
    while rest.len() > 0
        invariant
            0 <= i <= total,
            rest@.len() == total - i,
            mi_views(rest@) == orig.skip(i),
            mi_views(kept@) == chat_filter(orig.take(i)),
        decreases rest@.len(),
    {
        let ghost old_rest = rest@;
        let m = rest.remove(0);
        proof {
            assert(m@ == mi_views(old_rest)[0]);
            assert(mi_views(old_rest)[0] == orig.skip(i)[0]);
            assert(m@ == orig[i]);
            assert forall|j: int| 0 <= j < rest@.len() implies mi_views(rest@)[j] == orig.skip(
                i + 1,
            )[j] by {
                assert(rest@[j] == old_rest[j + 1]);
                assert(mi_views(old_rest)[j + 1] == orig.skip(i)[j + 1]);
            }
        }
        let ghost before = kept@;
        if has_chat_task(&m) {
            kept.push(m);
            proof {
                assert(forall|j: int|
                    0 <= j < before.len() ==> kept@[j]@ == #[trigger] mi_views(before)[j]);
            }
        }
        proof {
            assert(orig.take(i + 1).drop_last() =~= orig.take(i));
            assert(orig.take(i + 1).last() == orig[i]);
            assert(mi_views(rest@) =~= orig.skip(i + 1));
            assert(mi_views(kept@) =~= chat_filter(orig.take(i + 1)));
        }
        proof { i = i + 1; }
    }
    proof {
        assert(orig.take(total as int) =~= orig);
    }
    if kept.len() == 0 {
        get_default_models()
    } else {
        kept
    }
}

} // verus!
