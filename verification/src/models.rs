//! The catalogue of speech models: where their files are, which are
//! downloaded, and when one has to be loaded.
use crate::paths::{
    data_dir, ends_in, lies_within, opt_view, plain_extension, plain_name, under, FilePath,
    PathView,
};
use crate::text::{concat_text, same_text};
use vstd::prelude::*;

verus! {

/// One model of the catalogue.
#[derive(Clone, Copy)]
pub struct ModelPreset {
    pub id: &'static str,
    pub label: &'static str,
    pub file: &'static str,
    pub bytes: u64,
    pub multilingual: bool,
}

/// What the catalogue says of a model.
pub struct ModelRow {
    pub id: Seq<char>,
    pub label: Seq<char>,
    pub file: Seq<char>,
    pub bytes: u64,
    pub multilingual: bool,
}

impl View for ModelPreset {
    type V = ModelRow;

    open spec fn view(&self) -> ModelRow {
        ModelRow {
            id: self.id@,
            label: self.label@,
            file: self.file@,
            bytes: self.bytes,
            multilingual: self.multilingual,
        }
    }
}

/// The catalogue, from the smallest model to the largest.
pub open spec fn catalogue() -> Seq<ModelRow> {
    seq![
        ModelRow {
            id: "tiny"@,
            label: "Tiny"@,
            file: "ggml-tiny.bin"@,
            bytes: 77_700_000,
            multilingual: true,
        },
        ModelRow {
            id: "base"@,
            label: "Base"@,
            file: "ggml-base.bin"@,
            bytes: 147_900_000,
            multilingual: true,
        },
        ModelRow {
            id: "small"@,
            label: "Small"@,
            file: "ggml-small.bin"@,
            bytes: 487_600_000,
            multilingual: true,
        },
        ModelRow {
            id: "medium"@,
            label: "Medium"@,
            file: "ggml-medium.bin"@,
            bytes: 1_530_000_000,
            multilingual: true,
        },
        ModelRow {
            id: "large-v3"@,
            label: "Large v3"@,
            file: "ggml-large-v3.bin"@,
            bytes: 3_100_000_000,
            multilingual: true,
        },
    ]
}

/// The catalogue.
pub fn models() -> (r: Vec<ModelPreset>)
    ensures
        r@.len() == catalogue().len(),
        forall|i: int| 0 <= i < r@.len() ==> (#[trigger] r@[i])@ == catalogue()[i],
{
    vec![
        ModelPreset {
            id: "tiny",
            label: "Tiny",
            file: "ggml-tiny.bin",
            bytes: 77_700_000,
            multilingual: true,
        },
        ModelPreset {
            id: "base",
            label: "Base",
            file: "ggml-base.bin",
            bytes: 147_900_000,
            multilingual: true,
        },
        ModelPreset {
            id: "small",
            label: "Small",
            file: "ggml-small.bin",
            bytes: 487_600_000,
            multilingual: true,
        },
        ModelPreset {
            id: "medium",
            label: "Medium",
            file: "ggml-medium.bin",
            bytes: 1_530_000_000,
            multilingual: true,
        },
        ModelPreset {
            id: "large-v3",
            label: "Large v3",
            file: "ggml-large-v3.bin",
            bytes: 3_100_000_000,
            multilingual: true,
        },
    ]
}

/// Whether the model with the given identifier is the `i`th of the catalogue.
pub open spec fn is_model(id: Seq<char>, i: int) -> bool {
    0 <= i < catalogue().len() && catalogue()[i].id == id
}

/// Whether the catalogue has a model with the given identifier.
pub open spec fn known(id: Seq<char>) -> bool {
    exists|i: int| #[trigger] is_model(id, i)
}

/// What the catalogue says of the model with the given identifier.
pub open spec fn row_of(id: Seq<char>) -> ModelRow {
    catalogue()[choose|i: int| #[trigger] is_model(id, i)]
}

/// The message about an identifier that the catalogue does not have.
pub open spec fn unknown_model(id: Seq<char>) -> Seq<char> {
    "Unknown model: "@ + id
}

/// No two models share an identifier or a file.
pub proof fn law_models_are_distinct(i: int, j: int)
    requires
        0 <= i < catalogue().len(),
        0 <= j < catalogue().len(),
        catalogue()[i].id == catalogue()[j].id || catalogue()[i].file == catalogue()[j].file,
    ensures
        i == j,
{
    lemma_catalogue_texts();
    let a = catalogue()[i].id;
    let b = catalogue()[j].id;
    let c = catalogue()[i].file;
    let d = catalogue()[j].file;
    if i != j {
        assert(a.len() == b.len() ==> a[0] != b[0]);
        assert(c.len() == d.len() ==> c[5] != d[5]);
        assert(false);
    }
}

proof fn lemma_catalogue_texts()
    ensures
        "tiny"@ =~= seq!['t', 'i', 'n', 'y'],
        "base"@ =~= seq!['b', 'a', 's', 'e'],
        "small"@ =~= seq!['s', 'm', 'a', 'l', 'l'],
        "medium"@ =~= seq!['m', 'e', 'd', 'i', 'u', 'm'],
        "large-v3"@ =~= seq!['l', 'a', 'r', 'g', 'e', '-', 'v', '3'],
        "bin"@ =~= seq!['b', 'i', 'n'],
        "ggml-tiny.bin"@ =~= seq!['g', 'g', 'm', 'l', '-'] + "tiny"@ + seq!['.'] + "bin"@,
        "ggml-base.bin"@ =~= seq!['g', 'g', 'm', 'l', '-'] + "base"@ + seq!['.'] + "bin"@,
        "ggml-small.bin"@ =~= seq!['g', 'g', 'm', 'l', '-'] + "small"@ + seq!['.'] + "bin"@,
        "ggml-medium.bin"@ =~= seq!['g', 'g', 'm', 'l', '-'] + "medium"@ + seq!['.'] + "bin"@,
        "ggml-large-v3.bin"@ =~= seq!['g', 'g', 'm', 'l', '-'] + "large-v3"@ + seq!['.'] + "bin"@,
{
    reveal_strlit("tiny");
    reveal_strlit("base");
    reveal_strlit("small");
    reveal_strlit("medium");
    reveal_strlit("large-v3");
    reveal_strlit("bin");
    reveal_strlit("ggml-tiny.bin");
    reveal_strlit("ggml-base.bin");
    reveal_strlit("ggml-small.bin");
    reveal_strlit("ggml-medium.bin");
    reveal_strlit("ggml-large-v3.bin");
}

/// Every model of the catalogue is found under its identifier.
pub proof fn law_catalogue_is_found(i: int)
    requires
        0 <= i < catalogue().len(),
    ensures
        known(catalogue()[i].id),
        row_of(catalogue()[i].id) == catalogue()[i],
{
    let id = catalogue()[i].id;
    assert(is_model(id, i));
    law_models_are_distinct(i, choose|k: int| #[trigger] is_model(id, k));
}

/// The file of a model without its ending: `ggml-` and the identifier.
pub open spec fn file_stem(id: Seq<char>) -> Seq<char> {
    seq!['g', 'g', 'm', 'l', '-'] + id
}

/// The file of a model is a single component that ends in `.bin`, and is named
/// after the identifier.
pub(crate) proof fn lemma_model_file(i: int)
    requires
        0 <= i < catalogue().len(),
    ensures
        catalogue()[i].file == file_stem(catalogue()[i].id) + seq!['.'] + "bin"@,
        plain_name(catalogue()[i].file),
        file_stem(catalogue()[i].id).len() > 0,
        plain_extension("bin"@),
{
    lemma_catalogue_texts();
    let file = catalogue()[i].file;
    assert(file[0] == 'g');
    let id = catalogue()[i].id;
    assert(file =~= file_stem(id) + seq!['.'] + "bin"@);
    assert forall|k: int| 0 <= k < id.len() implies id[k] != '/' && id[k] != '\\' && id[k]
        != ':' by {}
    assert forall|k: int| 0 <= k < file.len() implies #[trigger] file[k] != '/' && file[k]
        != '\\' && file[k] != ':' by {
        if 5 <= k < 5 + id.len() {
            assert(file[k] == id[k - 5]);
        } else if k > 5 + id.len() {
            assert(file[k] == "bin"@[k - 6 - id.len()]);
        }
    }
}

/// The model with the given identifier, if the catalogue has it.
pub fn find_model(model_id: &str) -> (r: Option<ModelPreset>)
    ensures
        r is Some <==> known(model_id@),
        r matches Some(m) ==> m@ == row_of(model_id@) && m.id@ == model_id@,
{
    let all = models();
    for i in 0..all.len()
        invariant
            all@.len() == catalogue().len(),
            forall|k: int| 0 <= k < all@.len() ==> (#[trigger] all@[k])@ == catalogue()[k],
            forall|k: int| 0 <= k < i ==> !(#[trigger] is_model(model_id@, k)),
    {
        assert(all@[i as int]@ == catalogue()[i as int]);
        if same_text(all[i].id, model_id) {
            proof {
                assert(is_model(model_id@, i as int));
                let k = choose|k: int| #[trigger] is_model(model_id@, k);
                law_models_are_distinct(i as int, k);
            }
            return Some(all[i]);
        }
    }
    None
}

/// The models directory, given the user's data directory.
pub open spec fn models_dir_of(data: Option<PathView>) -> Option<PathView> {
    match data {
        Some(base) => Some(under(under(base, "io.dbr.rekk"@), "models"@)),
        None => None,
    }
}

/// Whether a result is the directory, or the message that there is none.
pub open spec fn is_models_dir(dir: Option<PathView>, r: Result<FilePath, String>) -> bool {
    match dir {
        Some(d) => r matches Ok(t) && t@ == d,
        None => r matches Err(m) && m@ == "Could not resolve data directory"@,
    }
}

/// The models directory, given the user's data directory.
pub fn models_dir_in(data: Option<FilePath>) -> (r: Result<FilePath, String>)
    ensures
        is_models_dir(models_dir_of(opt_view(data)), r),
{
    match data {
        Some(base) => Ok(base.join("io.dbr.rekk").join("models")),
        None => Err("Could not resolve data directory".to_owned()),
    }
}

/// The models directory of this user.
pub fn models_dir() -> (r: Result<FilePath, String>)
    ensures
        exists|data: Option<PathView>| #[trigger] is_models_dir(models_dir_of(data), r),
{
    let data = data_dir();
    let ghost d = opt_view(data);
    let r = models_dir_in(data);
    assert(is_models_dir(models_dir_of(d), r));
    r
}

/// Whether no model but the given one has its file at `path`.
pub open spec fn only_model_at(id: Seq<char>, dir: PathView, path: PathView) -> bool {
    forall|other: Seq<char>|
        known(other) && path == #[trigger] under(dir, row_of(other).file) ==> other == id
}

/// The path of a model's file, given the models directory or the message that
/// there is none. An identifier that the catalogue does not have is refused
/// first. The file lies inside the directory and ends in `.bin`, and no other
/// model has the same one.
pub fn model_path_in(model_id: &str, dir: Result<FilePath, String>) -> (r: Result<
    FilePath,
    String,
>)
    ensures
        !known(model_id@) ==> (r matches Err(m) && m@ == unknown_model(model_id@)),
        known(model_id@) ==> match dir {
            Err(e) => r matches Err(m) && m@ == e@,
            Ok(d) => r matches Ok(p) && p@ == under(d@, row_of(model_id@).file) && lies_within(
                p@,
                d@,
            ) && ends_in(p@, "bin"@) && only_model_at(model_id@, d@, p@),
        },
{
    match find_model(model_id) {
        None => Err(concat_text("Unknown model: ", model_id)),
        Some(preset) => match dir {
            Err(e) => Err(e),
            Ok(d) => {
                let ghost i = choose|i: int| #[trigger] is_model(model_id@, i);
                proof {
                    lemma_model_file(i);
                }
                let path = d.join(preset.file);
                proof {
                    assert forall|other: Seq<char>|
                        known(other) && path@ == #[trigger] under(
                            d@,
                            row_of(other).file,
                        ) implies other == model_id@ by {
                        let j = choose|j: int| #[trigger] is_model(other, j);
                        lemma_model_file(j);
                        law_models_are_distinct(i, j);
                    }
                }
                Ok(path)
            },
        },
    }
}

/// Whether `r` can be the path of a model's file, given the user's data
/// directory.
pub open spec fn is_model_path(
    model_id: Seq<char>,
    data: Option<PathView>,
    r: Result<FilePath, String>,
) -> bool {
    if !known(model_id) {
        r matches Err(m) && m@ == unknown_model(model_id)
    } else {
        match models_dir_of(data) {
            None => r matches Err(m) && m@ == "Could not resolve data directory"@,
            Some(dir) => r matches Ok(p) && p@ == under(dir, row_of(model_id).file) && lies_within(
                p@,
                dir,
            ) && only_model_at(model_id, dir, p@),
        }
    }
}

/// Distinct models have distinct paths: where the paths of two models in one
/// directory are the same, so are the models.
pub proof fn law_model_paths_are_distinct(
    a: Seq<char>,
    b: Seq<char>,
    data: Option<PathView>,
    path_a: Result<FilePath, String>,
    path_b: Result<FilePath, String>,
)
    requires
        is_model_path(a, data, path_a),
        is_model_path(b, data, path_b),
        path_a matches Ok(p) && (path_b matches Ok(q) && p@ == q@),
    ensures
        a == b,
{
}

/// The path of a model's file, downloaded or not.
pub fn model_path(model_id: &str) -> (r: Result<FilePath, String>)
    ensures
        exists|data: Option<PathView>| #[trigger] is_model_path(model_id@, data, r),
{
    let data = data_dir();
    let ghost d = opt_view(data);
    let r = model_path_in(model_id, models_dir_in(data));
    assert(is_model_path(model_id@, d, r));
    r
}

/// Whether a file of `local` bytes counts as a download of a model of `bytes`
/// bytes: at most a fifth may be missing.
pub open spec fn counts_as_downloaded(bytes: int, local: int) -> bool {
    local >= bytes - bytes / 5
}

/// The state of a model on this machine.
pub struct ModelStatus {
    pub id: String,
    pub label: String,
    pub file: String,
    pub bytes: u64,
    pub downloaded: bool,
    pub local_bytes: u64,
}

/// Whether `status` is the state of a model whose file has the given size, or
/// is not there.
pub open spec fn is_status(row: ModelRow, local: Option<u64>, status: ModelStatus) -> bool {
    &&& status.id@ == row.id
    &&& status.label@ == row.label
    &&& status.file@ == row.file
    &&& status.bytes == row.bytes
    &&& status.downloaded == (local matches Some(n) && counts_as_downloaded(
        row.bytes as int,
        n as int,
    ))
    &&& status.local_bytes == (match local {
        Some(n) => n,
        None => 0,
    })
}

/// The state of a model whose file has the given size, or is not there.
pub fn model_status(preset: &ModelPreset, local: Option<u64>) -> (r: ModelStatus)
    ensures
        is_status(preset@, local, r),
{
    let (downloaded, local_bytes) = match local {
        Some(n) => (n >= preset.bytes - preset.bytes / 5, n),
        None => (false, 0),
    };
    ModelStatus {
        id: preset.id.to_owned(),
        label: preset.label.to_owned(),
        file: preset.file.to_owned(),
        bytes: preset.bytes,
        downloaded,
        local_bytes,
    }
}

/// The size of the `i`th file; one that is not listed is not there.
pub open spec fn size_at(sizes: Seq<Option<u64>>, i: int) -> Option<u64> {
    if 0 <= i < sizes.len() {
        sizes[i]
    } else {
        None
    }
}

/// The states of all models, in the order of the catalogue, given the sizes of
/// their files.
pub fn model_statuses(sizes: &Vec<Option<u64>>) -> (r: Vec<ModelStatus>)
    ensures
        r@.len() == catalogue().len(),
        forall|i: int|
            0 <= i < r@.len() ==> is_status(catalogue()[i], size_at(sizes@, i), #[trigger] r@[i]),
{
    let all = models();
    let mut out: Vec<ModelStatus> = Vec::with_capacity(all.len());
    for i in 0..all.len()
        invariant
            all@.len() == catalogue().len(),
            forall|k: int| 0 <= k < all@.len() ==> (#[trigger] all@[k])@ == catalogue()[k],
            out@.len() == i,
            forall|k: int|
                0 <= k < i ==> is_status(catalogue()[k], size_at(sizes@, k), #[trigger] out@[k]),
    {
        let local = if i < sizes.len() {
            sizes[i]
        } else {
            None
        };
        assert(all@[i as int]@ == catalogue()[i as int]);
        out.push(model_status(&all[i], local));
    }
    out
}

/// A complete file counts as downloaded, as does a longer one; one that misses
/// more than a fifth does not.
pub proof fn law_downloaded_within_a_fifth(bytes: int, local: int)
    requires
        0 <= bytes,
        0 <= local,
    ensures
        local >= bytes ==> counts_as_downloaded(bytes, local),
        5 * local < 4 * bytes ==> !counts_as_downloaded(bytes, local),
        5 * local >= 4 * bytes + 4 ==> counts_as_downloaded(bytes, local),
{
}

/// The model that is kept loaded: it cannot be had, there is none, or the one
/// with the given identifier.
pub enum LoadedModel {
    Locked,
    Empty,
    Holding(String),
}

/// Whether a model can be loaded, given whether its file is there: an identifier
/// that the catalogue does not have is refused first, and then a model that was
/// not downloaded.
pub open spec fn is_model_found(model_id: Seq<char>, exists: bool, r: Result<(), String>) -> bool {
    if !known(model_id) {
        r matches Err(m) && m@ == unknown_model(model_id)
    } else if !exists {
        r matches Err(m) && m@ == not_downloaded(model_id)
    } else {
        r is Ok
    }
}

/// The message about a model whose file is not there.
pub open spec fn not_downloaded(id: Seq<char>) -> Seq<char> {
    "Model "@ + id + " is not downloaded yet"@
}

/// Whether a model can be loaded, given whether its file is there.
pub fn model_found(model_id: &str, exists: bool) -> (r: Result<(), String>)
    ensures
        is_model_found(model_id@, exists, r),
{
    if find_model(model_id).is_none() {
        Err(concat_text("Unknown model: ", model_id))
    } else if !exists {
        Err(concat_text(concat_text("Model ", model_id).as_str(), " is not downloaded yet"))
    } else {
        Ok(())
    }
}

/// Whether a model has to be loaded, given whether its file is there and which
/// model is kept: not where it is that one. A model that cannot be loaded is
/// noticed first.
pub fn load_model(model_id: &str, exists: bool, kept: &LoadedModel) -> (r: Result<bool, String>)
    ensures
        !known(model_id@) ==> (r matches Err(m) && m@ == unknown_model(model_id@)),
        known(model_id@) && !exists ==> (r matches Err(m) && m@ == not_downloaded(model_id@)),
        known(model_id@) && exists ==> match kept {
            LoadedModel::Locked => r matches Err(m) && m@ == "Model cache is locked"@,
            LoadedModel::Empty => r == Ok::<bool, String>(true),
            LoadedModel::Holding(id) => r == Ok::<bool, String>(id@ != model_id@),
        },
{
    if let Err(message) = model_found(model_id, exists) {
        return Err(message);
    }
    match kept {
        LoadedModel::Locked => Err("Model cache is locked".to_owned()),
        LoadedModel::Empty => Ok(true),
        LoadedModel::Holding(id) => Ok(!same_text(id.as_str(), model_id)),
    }
}

/// What the loading of a model is answered.
pub fn model_loaded(model_id: &str, loading: Result<(), String>) -> (r: Result<(), String>)
    ensures
        match loading {
            Ok(_) => r is Ok,
            Err(e) => r matches Err(m) && m@ == "Could not load model "@ + model_id@ + ": "@ + e@,
        },
{
    match loading {
        Ok(_) => Ok(()),
        Err(e) => {
            let about = concat_text(concat_text("Could not load model ", model_id).as_str(), ": ");
            Err(concat_text(about.as_str(), e.as_str()))
        },
    }
}

/// A file counts as a download where no more than a fifth of the model is missing.
pub proof fn law_a_fifth_may_be_missing(bytes: int, local: int)
    requires
        0 <= bytes,
        0 <= local,
    ensures
        counts_as_downloaded(bytes, local) <==> 5 * (bytes - local) <= bytes,
{
}

/// A model is known by the identifier that its row has, and by no other text.
pub proof fn law_known_by_its_identifier(id: Seq<char>)
    ensures
        known(id) <==> exists|i: int|
            0 <= i < catalogue().len() && (#[trigger] catalogue()[i]).id == id,
        known(id) ==> catalogue().contains(row_of(id)) && row_of(id).id == id,
{
    if known(id) {
        let i = choose|i: int| #[trigger] is_model(id, i);
        assert(catalogue()[i].id == id);
    }
    if exists|i: int| 0 <= i < catalogue().len() && (#[trigger] catalogue()[i]).id == id {
        let i = choose|i: int| 0 <= i < catalogue().len() && (#[trigger] catalogue()[i]).id == id;
        assert(is_model(id, i));
    }
}

/// The catalogue goes from the smallest model to the largest, and each model's
/// file is named after it.
pub proof fn law_catalogue_is_in_order(i: int, j: int)
    requires
        0 <= i < j < catalogue().len(),
    ensures
        catalogue().len() == 5,
        catalogue()[i].bytes < catalogue()[j].bytes,
        catalogue()[i].multilingual && catalogue()[j].multilingual,
        catalogue()[i].file == seq!['g', 'g', 'm', 'l', '-'] + catalogue()[i].id + seq![
            '.',
            'b',
            'i',
            'n',
        ],
        catalogue()[j].file == seq!['g', 'g', 'm', 'l', '-'] + catalogue()[j].id + seq![
            '.',
            'b',
            'i',
            'n',
        ],
{
    lemma_model_file(i);
    lemma_model_file(j);
    lemma_catalogue_texts();
    assert(catalogue()[j].file =~= seq!['g', 'g', 'm', 'l', '-'] + catalogue()[j].id + seq![
        '.',
        'b',
        'i',
        'n',
    ]);
    assert(catalogue()[i].file =~= seq!['g', 'g', 'm', 'l', '-'] + catalogue()[i].id + seq![
        '.',
        'b',
        'i',
        'n',
    ]);
}

/// A status repeats the catalogue, and gives the size of the file that is there.
pub proof fn law_status_says_what_is_there(row: ModelRow, local: Option<u64>, status: ModelStatus)
    requires
        is_status(row, local, status),
    ensures
        status.id@ == row.id,
        status.label@ == row.label,
        status.file@ == row.file,
        status.bytes == row.bytes,
        local is None ==> !status.downloaded && status.local_bytes == 0,
        local matches Some(n) ==> status.local_bytes == n && (status.downloaded <==> 5 * (row.bytes
            - n) <= row.bytes),
{
}

/// The sizes of the files go to the models in their order.
pub proof fn law_sizes_go_to_their_models(sizes: Seq<Option<u64>>, i: int)
    requires
        0 <= i,
    ensures
        i < sizes.len() ==> size_at(sizes, i) == sizes[i],
        i >= sizes.len() ==> size_at(sizes, i) is None,
{
}

/// A model of the catalogue is seen whole.
pub proof fn law_model_is_seen_whole(m: ModelPreset)
    ensures
        m@.id == m.id@,
        m@.label == m.label@,
        m@.file == m.file@,
        m@.bytes == m.bytes,
        m@.multilingual == m.multilingual,
{
}

/// Models go into `models` in the application's own directory, each under the name
/// of its file; an identifier that is not known is refused with all of it.
pub proof fn law_models_have_their_place(
    id: Seq<char>,
    data: Option<PathView>,
    r: Result<FilePath, String>,
    found: Result<(), String>,
    exists: bool,
)
    requires
        is_model_path(id, data, r),
        is_model_found(id, exists, found),
    ensures
        known(id) ==> (data matches Some(base) ==> (r matches Ok(p) && p@ == under(
            under(under(base, "io.dbr.rekk"@), "models"@),
            row_of(id).file,
        ))),
        known(id) && data is None ==> (r matches Err(m) && m@ == "Could not resolve data directory"@),
        !known(id) ==> (r matches Err(m) && m@ == "Unknown model: "@ + id),
        found is Ok <==> known(id) && exists,
        !known(id) ==> (found matches Err(m) && m@ == "Unknown model: "@ + id),
        known(id) && !exists ==> (found matches Err(m) && m@ == "Model "@ + id
            + " is not downloaded yet"@),
{
}

/// How large each model is, and what it is called.
pub proof fn law_rows_of_models()
    ensures
        row_of("tiny"@).bytes == 77_700_000,
        row_of("base"@).bytes == 147_900_000,
        row_of("small"@).bytes == 487_600_000,
        row_of("medium"@).bytes == 1_530_000_000,
        row_of("large-v3"@).bytes == 3_100_000_000,
        row_of("tiny"@).label == "Tiny"@,
        row_of("base"@).label == "Base"@,
        row_of("small"@).label == "Small"@,
        row_of("medium"@).label == "Medium"@,
        row_of("large-v3"@).label == "Large v3"@,
{
    law_catalogue_is_found(0);
    law_catalogue_is_found(1);
    law_catalogue_is_found(2);
    law_catalogue_is_found(3);
    law_catalogue_is_found(4);
    assert(catalogue()[0].id == "tiny"@);
    assert(catalogue()[1].id == "base"@);
    assert(catalogue()[2].id == "small"@);
    assert(catalogue()[3].id == "medium"@);
    assert(catalogue()[4].id == "large-v3"@);
}

/// The models directory is that of the application in the user's data directory.
pub proof fn law_models_directory(data: Option<PathView>, r: Result<FilePath, String>)
    requires
        is_models_dir(models_dir_of(data), r),
    ensures
        data matches Some(base) ==> (r matches Ok(d) && d@ == under(
            under(base, "io.dbr.rekk"@),
            "models"@,
        )),
        data is None ==> (r matches Err(m) && m@ == "Could not resolve data directory"@),
{
}

/// A message about a model has its whole identifier.
pub proof fn law_messages_name_the_model(id: Seq<char>)
    ensures
        unknown_model(id) == "Unknown model: "@ + id,
        not_downloaded(id) == "Model "@ + id + " is not downloaded yet"@,
{
}

/// Every model of the catalogue has its state, in order, whatever sizes are known.
pub proof fn law_every_model_has_its_state(
    sizes: &Vec<Option<u64>>,
    statuses: Vec<ModelStatus>,
    i: int,
)
    requires
        call_ensures(model_statuses, (sizes,), statuses),
        0 <= i < 5,
    ensures
        statuses@.len() == 5,
        statuses@[i].id@ == catalogue()[i].id,
        statuses@[i].bytes == catalogue()[i].bytes,
        i < sizes@.len() ==> (sizes@[i] matches Some(n) ==> statuses@[i].local_bytes == n),
        i >= sizes@.len() ==> !statuses@[i].downloaded,
{
    assert(is_status(catalogue()[i], size_at(sizes@, i), statuses@[i]));
}

} // verus!
