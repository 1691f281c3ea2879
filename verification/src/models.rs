//! What a model directory has to contain.
//!
//! The file layout is the models' own, not an app's choice. Where those
//! directories live is the app's business, and so is looking at them: a
//! [`Directory`] is what a look at one found.

use crate::text::{ends_with, starts_with};
use vstd::prelude::*;
use vstd::string::*;

verus! {

/// Which of the two models.
#[derive(Debug, Clone, Copy, PartialEq, Eq, Structural)]
pub enum Model {
    /// Parakeet TDT 0.6B v3. Transcribes a whole utterance at once, with
    /// punctuation, at roughly 48x real time on a CPU.
    Accurate,
    /// Nemotron's cache-aware streaming encoder. Takes fixed chunks and emits
    /// words as they are said, for showing somebody they are being heard.
    Live,
}

/// The directory name a model is distributed under.
pub open spec fn folder_of(model: Model) -> Seq<char> {
    match model {
        Model::Accurate => "parakeet-tdt-0.6b-v3-int8"@,
        Model::Live => "nemotron-streaming-en-0.6b"@,
    }
}

/// The files that a copy of `model` has besides its encoder.
pub open spec fn required_of(model: Model) -> Seq<Seq<char>> {
    match model {
        Model::Accurate => seq!["vocab.txt"@, "nemo128.onnx"@],
        Model::Live => seq!["tokenizer.model"@],
    }
}

impl Model {
    /// The directory name this model is distributed under.
    pub fn folder(self) -> (r: &'static str)
        ensures
            r@ == folder_of(self),
    {
        match self {
            Model::Accurate => "parakeet-tdt-0.6b-v3-int8",
            Model::Live => "nemotron-streaming-en-0.6b",
        }
    }

    /// The files that a copy of this model has besides its encoder.
    pub fn required(self) -> (r: Vec<&'static str>)
        ensures
            r@.map_values(|name: &'static str| name@) == required_of(self),
    {
        let mut names: Vec<&'static str> = Vec::new();
        match self {
            Model::Accurate => {
                names.push("vocab.txt");
                names.push("nemo128.onnx");
            },
            Model::Live => {
                names.push("tokenizer.model");
            },
        }
        assert(names@.map_values(|name: &'static str| name@) =~= required_of(self));
        names
    }
}

/// What a look at a path found.
#[derive(Debug)]
pub struct Directory {
    /// Whether the path is a directory.
    pub is_dir: bool,
    /// The files found when they were asked for by name.
    pub present: Vec<String>,
    /// The names of the entries, or `None` where they could not be listed.
    pub entries: Option<Vec<String>>,
}

/// Whether `names` holds `name`.
pub open spec fn names_hold(names: Seq<String>, name: Seq<char>) -> bool {
    exists|i: int| 0 <= i < names.len() && (#[trigger] names[i])@ == name
}

/// Whether `name` is one of the names an encoder ships as.
pub open spec fn encoder_name(name: Seq<char>) -> bool {
    "encoder"@.is_prefix_of(name) && ".onnx"@.is_suffix_of(name)
}

impl Directory {
    /// Whether the file `name` was found.
    pub open spec fn holds(self, name: Seq<char>) -> bool {
        names_hold(self.present@, name)
    }

    /// Whether there is an encoder under any of the names it ships as.
    pub open spec fn holds_encoder(self) -> bool {
        self.entries matches Some(names) && exists|i: int|
            0 <= i < names@.len() && encoder_name((#[trigger] names@[i])@)
    }

    /// Whether this is a usable copy of `model`.
    pub open spec fn holds_model(self, model: Model) -> bool {
        &&& self.is_dir
        &&& forall|i: int|
            0 <= i < required_of(model).len() ==> self.holds(#[trigger] required_of(model)[i])
        &&& self.holds_encoder()
    }

    /// Whether the file `name` was found.
    fn has(&self, name: &str) -> (r: bool)
        ensures
            r == self.holds(name@),
    {
        let wanted = String::from_str(name);
        let mut at: usize = 0;
        while at < self.present.len()
            invariant
                at <= self.present@.len(),
                wanted@ == name@,
                forall|i: int| 0 <= i < at ==> (#[trigger] self.present@[i])@ != name@,
            decreases self.present@.len() - at,
        {
            if self.present[at] == wanted {
                return true;
            }
            at = at + 1;
        }
        false
    }
}

/// Whether a directory holds a usable copy of `model`.
///
/// An encoder on its own is what an interrupted download leaves, and loading
/// that fails deep inside the ONNX Runtime with nothing a user could act on.
pub fn is_complete(dir: &Directory, model: Model) -> (r: bool)
    ensures
        r == dir.holds_model(model),
{
    if !dir.is_dir {
        return false;
    }
    let required = model.required();
    let ghost names = required@.map_values(|name: &'static str| name@);
    let mut at: usize = 0;
    while at < required.len()
        invariant
            at <= required@.len(),
            names == required@.map_values(|name: &'static str| name@),
            names == required_of(model),
            forall|i: int| 0 <= i < at ==> dir.holds(#[trigger] names[i]),
        decreases required@.len() - at,
    {
        if !dir.has(required[at]) {
            assert(!dir.holds(names[at as int]));
            return false;
        }
        assert(dir.holds(names[at as int]));
        at = at + 1;
    }
    has_encoder(dir)
}

/// Whether a directory holds an encoder under any of the names it ships as.
///
/// The int8 and float builds of the same model name it differently, and both are
/// valid downloads.
pub fn has_encoder(dir: &Directory) -> (r: bool)
    ensures
        r == dir.holds_encoder(),
{
    match &dir.entries {
        None => false,
        Some(names) => {
            let mut at: usize = 0;
            while at < names.len()
                invariant
                    at <= names@.len(),
                    dir.entries == Some(*names),
                    forall|i: int| 0 <= i < at ==> !encoder_name((#[trigger] names@[i])@),
                decreases names@.len() - at,
            {
                let name = names[at].as_str();
                if starts_with(name, "encoder") && ends_with(name, ".onnx") {
                    assert(encoder_name(dir.entries->0@[at as int]@));
                    return true;
                }
                at = at + 1;
            }
            false
        },
    }
}

/// The two models live in directories of their own.
pub proof fn law_folders_are_distinct(a: Model, b: Model)
    ensures
        folder_of(a) == folder_of(b) <==> a == b,
{
    reveal_strlit("parakeet-tdt-0.6b-v3-int8");
    reveal_strlit("nemotron-streaming-en-0.6b");
    assert(folder_of(Model::Accurate).len() == 25);
    assert(folder_of(Model::Live).len() == 26);
}

/// Whatever stands between `encoder` and `.onnx`, the name is an encoder's.
pub proof fn law_any_build_of_the_encoder_counts(build: Seq<char>)
    ensures
        encoder_name("encoder"@ + build + ".onnx"@),
{
    let name = "encoder"@ + build + ".onnx"@;
    assert("encoder"@ =~= name.subrange(0, "encoder"@.len() as int));
    assert(".onnx"@ =~= name.subrange(name.len() - ".onnx"@.len(), name.len() as int));
}

/// Where a file that a model requires was not found, the model does not count as
/// installed, whatever else is there: an encoder on its own is no model.
pub proof fn law_half_a_download_is_no_model(dir: Directory, model: Model, missing: int)
    requires
        0 <= missing < required_of(model).len(),
        !dir.holds(required_of(model)[missing]),
    ensures
        !dir.holds_model(model),
{
}

/// Neither model is complete without an encoder, nor where there is no directory.
pub proof fn law_a_model_has_an_encoder(dir: Directory, model: Model)
    ensures
        dir.holds_model(model) ==> dir.is_dir && dir.holds_encoder(),
        dir.entries is None ==> !dir.holds_model(model),
{
}

/// Both models require something besides the encoder.
pub proof fn law_an_encoder_alone_is_no_model(dir: Directory, model: Model)
    requires
        dir.present@.len() == 0,
    ensures
        !dir.holds_model(model),
{
    assert(!dir.holds(required_of(model)[0]));
}

/// Files besides those that a model needs do no harm.
pub proof fn law_more_files_do_no_harm(dir: Directory, fuller: Directory, model: Model)
    requires
        dir.holds_model(model),
        fuller.is_dir,
        forall|name: Seq<char>| #[trigger] dir.holds(name) ==> fuller.holds(name),
        fuller.entries is Some,
        forall|name: Seq<char>| #[trigger]
            names_hold(dir.entries->0@, name) ==> names_hold(fuller.entries->0@, name),
    ensures
        fuller.holds_model(model),
{
    let names = dir.entries->0@;
    let i = choose|i: int| 0 <= i < names.len() && encoder_name((#[trigger] names[i])@);
    assert(names_hold(names, names[i]@));
    let more = fuller.entries->0@;
    let j = choose|j: int| 0 <= j < more.len() && (#[trigger] more[j])@ == names[i]@;
    assert(encoder_name(more[j]@));
}

/// A name is an encoder's only if it is `encoder`, something or nothing, and then
/// `.onnx`; a decoder's never is.
pub proof fn law_an_encoder_name_has_both_ends(name: Seq<char>)
    ensures
        encoder_name(name) <==> exists|build: Seq<char>|
            name == #[trigger] ("encoder"@ + build + ".onnx"@),
        encoder_name(name) ==> name.len() >= 12 && name[0] == 'e' && name[1] == 'n' && name[2]
            == 'c' && name[3] == 'o' && name[4] == 'd' && name[5] == 'e' && name[6] == 'r'
            && name[name.len() - 5] == '.' && name[name.len() - 4] == 'o' && name[name.len() - 3]
            == 'n' && name[name.len() - 2] == 'n' && name[name.len() - 1] == 'x',
{
    reveal_strlit("encoder");
    reveal_strlit(".onnx");
    if encoder_name(name) {
        let end = name.len() - 5;
        assert("encoder"@ =~= name.subrange(0, 7));
        assert(".onnx"@ =~= name.subrange(end, name.len() as int));
        assert forall|i: int| 0 <= i < 7 implies name[i] == "encoder"@[i] by {
            assert(name.subrange(0, 7)[i] == name[i]);
        }
        let tail = name.subrange(end, name.len() as int);
        assert(tail[0] == '.' && tail[1] == 'o' && tail[2] == 'n' && tail[3] == 'n' && tail[4]
            == 'x');
        assert(name[0] == 'e' && name[1] == 'n' && name[2] == 'c' && name[3] == 'o' && name[4]
            == 'd' && name[5] == 'e' && name[6] == 'r');
        assert(name[end] == '.');
        let build = name.subrange(7, end);
        assert(name =~= "encoder"@ + build + ".onnx"@);
    }
    if exists|build: Seq<char>| name == #[trigger] ("encoder"@ + build + ".onnx"@) {
        let build = choose|build: Seq<char>| name == #[trigger] ("encoder"@ + build + ".onnx"@);
        law_any_build_of_the_encoder_counts(build);
    }
}

/// A directory holds an encoder exactly where its entries were listed and one of
/// them is named `encoder`, something or nothing, and then `.onnx`.
pub proof fn law_an_encoder_is_an_entry(dir: Directory)
    ensures
        dir.holds_encoder() <==> dir.entries is Some && exists|i: int, build: Seq<char>|
            #![trigger dir.entries->0@[i], ("encoder"@ + build + ".onnx"@)]
            0 <= i < dir.entries->0@.len() && dir.entries->0@[i]@ == "encoder"@ + build + ".onnx"@,
{
    if dir.holds_encoder() {
        let names = dir.entries->0@;
        let i = choose|i: int| 0 <= i < names.len() && encoder_name((#[trigger] names[i])@);
        law_an_encoder_name_has_both_ends(names[i]@);
        let build = choose|build: Seq<char>|
            names[i]@ == #[trigger] ("encoder"@ + build + ".onnx"@);
        assert(dir.entries->0@[i]@ == "encoder"@ + build + ".onnx"@);
    }
    if dir.entries is Some && exists|i: int, build: Seq<char>|
        #![trigger dir.entries->0@[i], ("encoder"@ + build + ".onnx"@)]
        0 <= i < dir.entries->0@.len() && dir.entries->0@[i]@ == "encoder"@ + build + ".onnx"@ {
        let (i, build) = choose|i: int, build: Seq<char>|
            #![trigger dir.entries->0@[i], ("encoder"@ + build + ".onnx"@)]
            0 <= i < dir.entries->0@.len() && dir.entries->0@[i]@ == "encoder"@ + build + ".onnx"@;
        law_any_build_of_the_encoder_counts(build);
        assert(encoder_name(dir.entries->0@[i]@));
    }
}

/// Where no entry begins with `encoder`, neither model is there.
pub proof fn law_no_encoder_no_model(dir: Directory, model: Model)
    requires
        dir.entries matches Some(names) ==> forall|i: int|
            0 <= i < names@.len() ==> !"encoder"@.is_prefix_of((#[trigger] names@[i])@),
    ensures
        !dir.holds_encoder(),
        !dir.holds_model(model),
{
    if dir.holds_encoder() {
        let names = dir.entries->0@;
        let i = choose|i: int| 0 <= i < names.len() && encoder_name((#[trigger] names[i])@);
        law_an_encoder_name_has_both_ends(names[i]@);
        assert("encoder"@.is_prefix_of(names[i]@));
    }
}

/// A file counts as found exactly where its name is among those found, to the letter.
pub proof fn law_a_file_is_found_by_its_name(dir: Directory, name: Seq<char>)
    ensures
        dir.holds(name) <==> exists|i: int|
            0 <= i < dir.present@.len() && (#[trigger] dir.present@[i])@ == name,
{
}

/// The accurate model is there exactly where a directory has its vocabulary, its
/// preprocessor and an encoder, and the live one where a directory has its
/// tokenizer and an encoder.
pub proof fn law_what_makes_a_model(dir: Directory)
    ensures
        dir.holds_model(Model::Accurate) <==> {
            &&& dir.is_dir
            &&& exists|i: int|
                0 <= i < dir.present@.len() && (#[trigger] dir.present@[i])@ == "vocab.txt"@
            &&& exists|i: int|
                0 <= i < dir.present@.len() && (#[trigger] dir.present@[i])@ == "nemo128.onnx"@
            &&& dir.holds_encoder()
        },
        dir.holds_model(Model::Live) <==> {
            &&& dir.is_dir
            &&& exists|i: int|
                0 <= i < dir.present@.len() && (#[trigger] dir.present@[i])@ == "tokenizer.model"@
            &&& dir.holds_encoder()
        },
{
    let accurate = required_of(Model::Accurate);
    let live = required_of(Model::Live);
    assert(accurate[0] == "vocab.txt"@ && accurate[1] == "nemo128.onnx"@);
    assert(live[0] == "tokenizer.model"@);
    law_a_file_is_found_by_its_name(dir, "vocab.txt"@);
    law_a_file_is_found_by_its_name(dir, "nemo128.onnx"@);
    law_a_file_is_found_by_its_name(dir, "tokenizer.model"@);
    if dir.holds_model(Model::Accurate) {
        assert(dir.holds(accurate[0]) && dir.holds(accurate[1]));
    }
    if dir.holds_model(Model::Live) {
        assert(dir.holds(live[0]));
    }
}

} // verus!
