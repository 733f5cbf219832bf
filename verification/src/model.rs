//! The models that the corrections run on: where they come from, what they
//! are called, and the prompt of the plain correction.

use vstd::prelude::*;
use vstd::string::StringExecFns;
use crate::args::texts;
use crate::json::{JsonKind, JsonMember, JsonMemberView, find_member, json_elements,
    json_members, member_named, member_views, read_elements, read_members};
use crate::number::{parse_u64, u64_value};
use crate::text::{chars_of, concat2, concat3, has_suffix, same, strip_suffix, text_of,
    without_suffix};

verus! {

/// The repository that holds the models.
pub const HF_REPO: &'static str = "animeshkundu/cmd-correct";

/// The model of the plain correction, unless another is set.
pub const DEFAULT_MODEL: &'static str = "qwen3-correct-0.6B";

/// The name of the file that holds the configuration.
pub const CONFIG_FILE: &'static str = "config.json";

/// The ending of a model's file.
pub const MODEL_ENDING: &'static str = ".gguf";

/// What the user has set.
#[derive(Debug, Clone, PartialEq, Eq)]
pub struct Config {
    /// The model of the plain correction.
    pub default_model: String,
}

impl Default for Config {
    fn default() -> (r: Self)
        ensures
            r.default_model@ == DEFAULT_MODEL@,
    {
        Config { default_model: DEFAULT_MODEL.to_owned() }
    }
}

/// A model that the repository offers.
#[derive(Debug, Clone, PartialEq, Eq)]
pub struct AvailableModel {
    /// The model's name.
    pub name: String,
    /// The size of the model's file, in bytes.
    pub size: u64,
}

/// A model, as a sequence of characters.
pub struct ModelView {
    pub name: Seq<char>,
    pub size: u64,
}

impl View for AvailableModel {
    type V = ModelView;

    open spec fn view(&self) -> ModelView {
        ModelView { name: self.name@, size: self.size }
    }
}

/// The views of a list of models.
pub open spec fn model_views(models: Seq<AvailableModel>) -> Seq<ModelView> {
    Seq::new(models.len(), |i: int| models[i]@)
}

/// The prompt of the plain correction of `command` on `shell`.
pub open spec fn fix_prompt_of(shell: Seq<char>, command: Seq<char>) -> Seq<char> {
    "<|im_start|>system\nYou are a shell command corrector for "@ + shell
        + ". Output only the corrected command.<|im_end|>\n<|im_start|>user\n"@ + command
        + "<|im_end|>\n<|im_start|>assistant\n"@
}

/// The prompt of the plain correction of `command` on `shell`. The error that
/// the command gave is not part of it.
pub fn build_prompt(shell: &str, command: &str, _error: Option<&str>) -> (r: String)
    ensures
        r@ == fix_prompt_of(shell@, command@),
{
    let mut r = concat3(
        "<|im_start|>system\nYou are a shell command corrector for ",
        shell,
        ". Output only the corrected command.<|im_end|>\n<|im_start|>user\n",
    );
    r.append(command);
    r.append("<|im_end|>\n<|im_start|>assistant\n");
    r
}

/// The name of a model's file.
pub fn model_file_name(model_name: &str) -> (r: String)
    ensures
        r@ == model_name@ + MODEL_ENDING@,
{
    concat2(model_name, MODEL_ENDING)
}

/// The address of the list of the repository's files.
pub fn listing_url() -> (r: String)
    ensures
        r@ == "https://huggingface.co/api/models/"@ + HF_REPO@ + "/tree/main"@,
{
    concat3("https://huggingface.co/api/models/", HF_REPO, "/tree/main")
}

/// The address of a model's file.
pub fn download_url(model_name: &str) -> (r: String)
    ensures
        r@ == "https://huggingface.co/"@ + HF_REPO@ + "/resolve/main/"@ + model_name@
            + MODEL_ENDING@,
{
    let mut r = concat3("https://huggingface.co/", HF_REPO, "/resolve/main/");
    r.append(model_name);
    r.append(MODEL_ENDING);
    r
}

/// A file's name without every model ending at its end.
pub open spec fn model_name_of(path: Seq<char>) -> Seq<char>
    decreases path.len(),
{
    match without_suffix(path, MODEL_ENDING@) {
        Some(rest) => if rest.len() < path.len() {
            model_name_of(rest)
        } else {
            rest
        },
        None => path,
    }
}

/// The size that a member of a file's entry gives: the number it holds, or
/// nothing where it holds no whole number that fits.
pub open spec fn size_of(member: Option<JsonMemberView>) -> u64 {
    match member {
        Some(m) => if m.kind == JsonKind::Other {
            match u64_value(m.body) {
                Some(n) => n,
                None => 0,
            }
        } else {
            0
        },
        None => 0,
    }
}

/// The model that a file's entry stands for: the entry must have a path that
/// is a string and ends like a model.
pub open spec fn model_of(members: Option<Seq<JsonMemberView>>) -> Option<ModelView> {
    match members {
        None => None,
        Some(ms) => match member_named(ms, "path"@) {
            Some(path) => if path.kind == JsonKind::Text && has_suffix(path.body, MODEL_ENDING@) {
                Some(
                    ModelView {
                        name: model_name_of(path.body),
                        size: size_of(member_named(ms, "size"@)),
                    },
                )
            } else {
                None
            },
            None => None,
        },
    }
}

/// The models among the entries of a listing.
pub open spec fn models_among(entries: Seq<Seq<char>>) -> Seq<ModelView>
    decreases entries.len(),
{
    if entries.len() == 0 {
        seq![]
    } else {
        let head = models_among(entries.drop_last());
        match model_of(json_members(entries.last())) {
            Some(model) => head.push(model),
            None => head,
        }
    }
}

/// A file's name without every model ending at its end.
fn model_name(path: &Vec<char>) -> (r: Vec<char>)
    ensures
        r@ == model_name_of(path@),
    decreases path.len(),
{
    match strip_suffix(path, MODEL_ENDING) {
        Some(rest) => {
            if rest.len() < path.len() {
                model_name(&rest)
            } else {
                rest
            }
        },
        None => {
            let r = crate::text::slice(path, 0, path.len());
            assert(r@ =~= path@);
            r
        },
    }
}

/// The model that a file's entry stands for, given the entry's members.
pub fn model_from_members(members: Option<Vec<JsonMember>>) -> (r: Option<AvailableModel>)
    ensures
        match r {
            Some(model) => model_of(
                match members {
                    Some(ms) => Some(member_views(ms@)),
                    None => None,
                },
            ) == Some(model@),
            None => model_of(
                match members {
                    Some(ms) => Some(member_views(ms@)),
                    None => None,
                },
            ) is None,
        },
{
    let ms = match members {
        Some(ms) => ms,
        None => {
            return None;
        },
    };
    let i = match find_member(&ms, "path") {
        Some(i) => i,
        None => {
            return None;
        },
    };
    if !matches!(ms[i].kind, JsonKind::Text) {
        return None;
    }
    let path = chars_of(ms[i].body.as_str());
    if strip_suffix(&path, MODEL_ENDING).is_none() {
        return None;
    }
    let size: u64 = match find_member(&ms, "size") {
        Some(j) => {
            if matches!(ms[j].kind, JsonKind::Other) {
                match parse_u64(ms[j].body.as_str()) {
                    Some(n) => n,
                    None => 0,
                }
            } else {
                0
            }
        },
        None => 0,
    };
    Some(AvailableModel { name: text_of(&model_name(&path)), size })
}

/// The models that a listing of the repository's files offers; an error
/// where the listing is no JSON array.
pub fn models_from_listing(listing: &str) -> (r: Result<Vec<AvailableModel>, String>)
    ensures
        match r {
            Ok(models) => json_elements(listing@) is Some && model_views(models@) == models_among(
                json_elements(listing@)->0,
            ),
            Err(e) => json_elements(listing@) is None && e@ == "expected a JSON array"@,
        },
{
    let entries = match read_elements(listing) {
        Some(entries) => entries,
        None => {
            return Err("expected a JSON array".to_owned());
        },
    };
    let mut models: Vec<AvailableModel> = Vec::new();
    let mut i: usize = 0;
    let ghost all = texts(entries@);
    assert(all.take(0) =~= Seq::<Seq<char>>::empty());
    assert(model_views(models@) =~= Seq::<ModelView>::empty());
    while i < entries.len()
        invariant
            i <= entries.len(),
            all == texts(entries@),
            model_views(models@) == models_among(all.take(i as int)),
        decreases entries.len() - i,
    {
        assert(all.take(i + 1).drop_last() =~= all.take(i as int));
        assert(all.take(i + 1).last() == entries@[i as int]@);
        if let Some(model) = model_from_members(read_members(entries[i].as_str())) {
            let ghost before = model_views(models@);
            models.push(model);
            assert(model_views(models@) =~= before.push(model@));
        }
        i += 1;
    }
    assert(all.take(entries.len() as int) =~= all);
    Ok(models)
}

/// Whether one of the models has the given name.
pub open spec fn offers(models: Seq<ModelView>, name: Seq<char>) -> bool {
    exists|i: int| 0 <= i < models.len() && (#[trigger] models[i]).name == name
}

/// The names of the models, with a comma and a space between them.
pub open spec fn names_of(models: Seq<ModelView>) -> Seq<char>
    decreases models.len(),
{
    if models.len() == 0 {
        Seq::empty()
    } else if models.len() == 1 {
        models[0].name
    } else {
        names_of(models.drop_last()) + ", "@ + models.last().name
    }
}

/// That a model is among those offered; else the message that names those
/// that are.
pub fn validate_model_exists(model_name: &str, models: &Vec<AvailableModel>) -> (r: Result<
    (),
    String,
>)
    ensures
        match r {
            Ok(_) => offers(model_views(models@), model_name@),
            Err(e) => !offers(model_views(models@), model_name@) && e@ == "Model '"@ + model_name@
                + "' not found.\nAvailable models: "@ + names_of(model_views(models@)),
        },
{
    let wanted = chars_of(model_name);
    let ghost all = model_views(models@);
    let mut names = String::new();
    let mut i: usize = 0;
    assert(all.take(0) =~= Seq::<ModelView>::empty());
    while i < models.len()
        invariant
            i <= models.len(),
            all == model_views(models@),
            wanted@ == model_name@,
            names@ == names_of(all.take(i as int)),
            forall|k: int| 0 <= k < i ==> (#[trigger] all[k]).name != model_name@,
        decreases models.len() - i,
    {
        let name = chars_of(models[i].name.as_str());
        if same(&name, &wanted) {
            assert(all[i as int].name == model_name@);
            return Ok(());
        }
        let ghost next = all.take(i + 1);
        assert(next.drop_last() =~= all.take(i as int));
        assert(next.last() == all[i as int]);
        if i > 0 {
            names.append(", ");
        } else {
            assert(names@ + all[i as int].name =~= all[i as int].name);
        }
        names.append(models[i].name.as_str());
        i += 1;
    }
    assert(all.take(models.len() as int) =~= all);
    let mut message = concat3("Model '", model_name, "' not found.\nAvailable models: ");
    message.append(names.as_str());
    Err(message)
}

/// How to get at the model to run.
#[derive(Debug, Clone, PartialEq, Eq)]
pub enum ModelSource {
    /// The file at this path.
    File(String),
    /// The file of the model of this name, which is there.
    Installed(String),
    /// The model of this name is to be fetched first.
    Download(String),
}

/// How to get at the model to run, as sequences of characters.
pub enum SourceView {
    File(Seq<char>),
    Installed(Seq<char>),
    Download(Seq<char>),
}

impl View for ModelSource {
    type V = SourceView;

    open spec fn view(&self) -> SourceView {
        match self {
            ModelSource::File(path) => SourceView::File(path@),
            ModelSource::Installed(name) => SourceView::Installed(name@),
            ModelSource::Download(name) => SourceView::Download(name@),
        }
    }
}

/// How to get at a model by its name: its file where it is there, unless it
/// is to be fetched anew.
pub fn find_or_download_model(model_name: &str, installed: bool, force_download: bool) -> (r:
    ModelSource)
    ensures
        r@ == if installed && !force_download {
            SourceView::Installed(model_name@)
        } else {
            SourceView::Download(model_name@)
        },
{
    if installed && !force_download {
        ModelSource::Installed(model_name.to_owned())
    } else {
        ModelSource::Download(model_name.to_owned())
    }
}

/// How to get at the model to run. A path that the user gave must lead to a
/// file: `override_exists` tells whether it does. Without one the configured
/// model is taken: `installed` tells whether its file is there.
pub fn find_model_path(
    override_path: Option<&str>,
    override_exists: bool,
    config: &Config,
    installed: bool,
    force_update: bool,
) -> (r: Result<ModelSource, String>)
    ensures
        match override_path {
            Some(path) => if override_exists {
                r matches Ok(source) && source@ == SourceView::File(path@)
            } else {
                r matches Err(e) && e@ == "Model not found at: "@ + path@
            },
            None => r matches Ok(source) && source@ == if installed && !force_update {
                SourceView::Installed(config.default_model@)
            } else {
                SourceView::Download(config.default_model@)
            },
        },
{
    match override_path {
        Some(path) => {
            if override_exists {
                Ok(ModelSource::File(path.to_owned()))
            } else {
                Err(concat2("Model not found at: ", path))
            }
        },
        None => Ok(find_or_download_model(config.default_model.as_str(), installed, force_update)),
    }
}

} // verus!
