//! Where the language model lives on disk, and the validation of its model id.
//! Creating the directory and downloading the files are left to the caller.
use vstd::prelude::*;
use std::path::PathBuf;

verus! {

#[verifier::external_type_specification]
#[verifier::external_body]
pub struct ExPathBuf(std::path::PathBuf);

/// The Hugging Face repository of the model.
pub const DEFAULT_MODEL: &'static str = "unsloth/gemma-3-1b-it-GGUF";

/// The model file within that repository.
pub const MODEL_FILENAME: &'static str = "gemma-3-1b-it-Q8_0.gguf";

/// Calls `dirs::home_dir`. It reads `$HOME` or the user database, so nothing
/// is claimed of which path, or whether one, comes back.
#[verifier::external_body]
fn home_dir() -> Option<PathBuf> {
    dirs::home_dir()
}

/// Calls `PathBuf::clone`: the copy is the same path.
#[verifier::external_body]
fn clone_path(p: &PathBuf) -> (r: PathBuf)
    ensures
        r == *p,
{
    p.clone()
}

/// A path given as a base directory and the texts to join onto it, in order.
/// It does not depend on the platform's separator; the caller joins the texts
/// (`Path::join`, one after the other) when it needs a `PathBuf`.
pub struct ModelPath {
    pub base: PathBuf,
    pub segments: Vec<String>,
}

pub struct ModelPathView {
    pub base: PathBuf,
    pub segments: Seq<Seq<char>>,
}

/// The texts of a list of strings.
pub open spec fn texts(v: Seq<String>) -> Seq<Seq<char>> {
    v.map_values(|s: String| s@)
}

impl View for ModelPath {
    type V = ModelPathView;

    open spec fn view(&self) -> ModelPathView {
        ModelPathView { base: self.base, segments: texts(self.segments@) }
    }
}

fn copy_texts(v: &Vec<String>) -> (r: Vec<String>)
    ensures
        texts(r@) == texts(v@),
{
    let mut r: Vec<String> = Vec::new();
    let mut i: usize = 0;
    while i < v.len()
        invariant
            i <= v@.len(),
            r@.len() == i,
            texts(r@) == texts(v@.take(i as int)),
        decreases v@.len() - i,
    {
        let ghost before = r@;
        let c = v[i].clone();
        r.push(c);
        proof {
            assert(r@ == before.push(c));
            assert(texts(before) == texts(v@.take(i as int)));
            assert forall|k: int| 0 <= k < i + 1 implies #[trigger] texts(r@)[k] == texts(
                v@.take(i + 1 as int),
            )[k] by {
                if k < i {
                    assert(texts(r@)[k] == texts(before)[k]);
                    assert(texts(v@.take(i as int))[k] == v@[k]@);
                }
            }
            assert(texts(r@) =~= texts(v@.take(i + 1 as int)));
        }
        i = i + 1;
    }
    proof {
        assert(v@.take(v@.len() as int) =~= v@);
    }
    r
}

/// The directories under the home directory where models are kept.
pub open spec fn model_dir_names(windows: bool) -> Seq<Seq<char>> {
    if windows {
        seq!["AppData"@, "Roaming"@, "gui"@, "models"@]
    } else {
        seq![".cache"@, "gui"@, "models"@]
    }
}

/// The directory where models are kept under `home`: the roaming application
/// data on Windows, `.cache` elsewhere, then `gui/models`.
pub fn model_dir_from_home(home: PathBuf, windows: bool) -> (p: ModelPath)
    ensures
        p@ == (ModelPathView { base: home, segments: model_dir_names(windows) }),
{
    let mut segments: Vec<String> = Vec::new();
    if windows {
        segments.push("AppData".to_owned());
        segments.push("Roaming".to_owned());
    } else {
        segments.push(".cache".to_owned());
    }
    segments.push("gui".to_owned());
    segments.push("models".to_owned());
    let p = ModelPath { base: home, segments };
    assert(p@.segments =~= model_dir_names(windows));
    p
}

/// Keeps track of where the model lives.
pub struct ModelManager {
    model_dir: ModelPath,
}

/// The error when there is no home directory.
pub open spec fn no_home_error() -> Seq<char> {
    "Could not find home directory"@
}

impl ModelManager {
    /// The directory where models are kept, under the home directory, in the
    /// layout of Windows when `windows` holds; an error when there is no home
    /// directory.
    pub fn get_model_dir(windows: bool) -> (r: Result<ModelPath, String>)
        ensures
            match r {
                Ok(p) => p@.segments == model_dir_names(windows),
                Err(e) => e@ == no_home_error(),
            },
    {
        match home_dir() {
            Some(h) => Ok(model_dir_from_home(h, windows)),
            None => Err("Could not find home directory".to_owned()),
        }
    }

    /// A manager for the model directory under the home directory, in the
    /// layout of Windows when `windows` holds.
    pub fn new(windows: bool) -> (r: Result<ModelManager, String>)
        ensures
            match r {
                Ok(m) => m.dir().segments == model_dir_names(windows),
                Err(e) => e@ == no_home_error(),
            },
    {
        let model_dir = Self::get_model_dir(windows)?;
        Ok(ModelManager { model_dir })
    }

    /// The directory that this manager keeps models in.
    pub closed spec fn dir(&self) -> ModelPathView {
        self.model_dir@
    }

    /// The directory where models are kept.
    pub fn model_dir(&self) -> (r: &ModelPath)
        ensures
            r@ == self.dir(),
    {
        &self.model_dir
    }

    /// The path of the model file: the model directory, then the repository,
    /// then the file name.
    pub fn get_model_path(&self) -> (r: ModelPath)
        ensures
            r@ == (ModelPathView {
                base: self.dir().base,
                segments: self.dir().segments.push(DEFAULT_MODEL@).push(MODEL_FILENAME@),
            }),
    {
        let mut segments = copy_texts(&self.model_dir.segments);
        segments.push(DEFAULT_MODEL.to_owned());
        segments.push(MODEL_FILENAME.to_owned());
        let r = ModelPath { base: clone_path(&self.model_dir.base), segments };
        assert(r@.segments =~= self.dir().segments.push(DEFAULT_MODEL@).push(MODEL_FILENAME@));
        r
    }
}

/// The number of occurrences of `c` in `s`.
pub open spec fn count_char(s: Seq<char>, c: char) -> nat
    decreases s.len(),
{
    if s.len() == 0 {
        0
    } else {
        count_char(s.drop_last(), c) + if s.last() == c {
            1nat
        } else {
            0nat
        }
    }
}

/// The error for a model id that is not of the form `owner/name`.
pub open spec fn invalid_model_id_error() -> Seq<char> {
    "Invalid model ID format"@
}

/// Checks that a model id splits at `/` into exactly two parts, owner and name.
pub fn check_model_id(id: &str) -> (r: Result<(), String>)
    ensures
        r is Ok <==> count_char(id@, '/') == 1,
        r matches Err(e) ==> e@ == invalid_model_id_error(),
{
    let n = id.unicode_len();
    let mut count: usize = 0;
    let mut i: usize = 0;
    while i < n
        invariant
            n == id@.len(),
            i <= n,
            count == count_char(id@.take(i as int), '/'),
            count <= i,
        decreases n - i,
    {
        proof {
            assert(id@.take(i + 1 as int).drop_last() =~= id@.take(i as int));
        }
        if id.get_char(i) == '/' {
            count = count + 1;
        }
        i = i + 1;
    }
    proof {
        assert(id@.take(n as int) =~= id@);
    }
    if count == 1 {
        Ok(())
    } else {
        Err("Invalid model ID format".to_owned())
    }
}

/// The default model id has the form `owner/name`.
pub fn default_model_id_is_valid() -> (r: Result<(), String>)
    ensures
        r is Ok,
{
    proof {
        reveal_strlit("unsloth/gemma-3-1b-it-GGUF");
        reveal_with_fuel(count_char, 27);
        assert(count_char("unsloth/gemma-3-1b-it-GGUF"@, '/') == 1);
    }
    check_model_id(DEFAULT_MODEL)
}

} // verus!
