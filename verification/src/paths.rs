//! Paths as text, through the operations of `std::path`, and the user's
//! standard directories. The rules for paths are those of Unix: the application
//! runs on macOS.
use crate::text::texts;
use vstd::prelude::*;

verus! {

/// What `Path::join` makes of a base and a name.
pub uninterp spec fn joined(base: Seq<char>, name: Seq<char>) -> Seq<char>;

/// Whether `Path::starts_with` finds a path inside a base.
pub uninterp spec fn is_within(path: Seq<char>, base: Seq<char>) -> bool;

/// What `Path::extension` finds in a path.
pub uninterp spec fn extension_of(path: Seq<char>) -> Option<Seq<char>>;

/// What `Path::with_extension` makes of a path and an extension.
pub uninterp spec fn with_extension_of(path: Seq<char>, extension: Seq<char>) -> Seq<char>;

/// A single component that names a file: no separator or drive mark in it, and
/// neither of the two directory names.
pub open spec fn plain_name(name: Seq<char>) -> bool {
    &&& name.len() > 0
    &&& forall|i: int|
        0 <= i < name.len() ==> #[trigger] name[i] != '/' && name[i] != '\\' && name[i] != ':'
    &&& name != seq!['.']
    &&& name != seq!['.', '.']
}

/// Text without a path separator or a dot, as an extension has to be.
pub open spec fn plain_extension(extension: Seq<char>) -> bool {
    &&& extension.len() > 0
    &&& forall|i: int|
        0 <= i < extension.len() ==> #[trigger] extension[i] != '/' && extension[i] != '\\'
            && extension[i] != '.'
}

/// Whether no component starts with two dots, so that no file is named by an
/// extension behind a stem of a single dot.
pub open spec fn no_dot_stem(path: Seq<char>) -> bool {
    forall|i: int|
        0 <= i < path.len() - 1 && #[trigger] path[i] == '.' && (i == 0 || path[i - 1] == '/')
            ==> path[i + 1] != '.'
}

/// `std::path::Path::join`, on text. The contract claims that the result is a
/// function of the two texts and, of a plain file name, what the documentation
/// gives: the name is adjoined to the base, so the result lies inside the base,
/// no other plain name gives it, and its extension is what follows the last dot
/// of the name, where something precedes that dot.
#[verifier::external_body]
pub(crate) fn path_join(base: &str, name: &str) -> (r: String)
    ensures
        r@ == joined(base@, name@),
        plain_name(name@) ==> is_within(r@, base@),
        forall|other: Seq<char>|
            plain_name(name@) && plain_name(other) && r@ == #[trigger] joined(base@, other) ==> other
                == name@,
        forall|stem: Seq<char>, extension: Seq<char>|
            plain_name(name@) && stem.len() > 0 && plain_extension(extension) && name@
                == #[trigger] (stem + seq!['.'] + extension) ==> extension_of(r@) == Some(extension),
{
    std::path::Path::new(base).join(name).to_string_lossy().to_string()
}

/// `std::path::Path::starts_with`, on text. The contract claims that the answer
/// is a function of the two texts.
#[verifier::external_body]
pub(crate) fn path_starts_with(path: &str, base: &str) -> (r: bool)
    ensures
        r == is_within(path@, base@),
{
    std::path::Path::new(path).starts_with(base)
}

/// `std::path::Path::extension`, on text. The contract claims that the answer
/// is a function of the text.
#[verifier::external_body]
pub(crate) fn path_extension(path: &str) -> (r: Option<String>)
    ensures
        match (r, extension_of(path@)) {
            (Some(e), Some(t)) => e@ == t,
            (None, None) => true,
            _ => false,
        },
{
    std::path::Path::new(path).extension().map(|e| e.to_string_lossy().to_string())
}

/// `std::path::Path::with_extension`, on text. The contract claims that the
/// result is a function of the two texts and, as the documentation gives it,
/// that an extension is replaced where there is one; nothing is claimed where
/// the file name could be an extension behind two dots.
#[verifier::external_body]
pub(crate) fn path_with_extension(path: &str, extension: &str) -> (r: String)
    requires
        plain_extension(extension@),
    ensures
        r@ == with_extension_of(path@, extension@),
        extension_of(path@) is Some && no_dot_stem(path@) ==> extension_of(r@) == Some(extension@),
{
    std::path::Path::new(path).with_extension(extension).to_string_lossy().to_string()
}

/// A path below one of the user's directories. One that is Unicode text is kept
/// as such; of any other, the directory is kept in its bytes, with the names
/// that were joined to it.
#[derive(Clone, Debug, PartialEq, Eq)]
pub enum FilePath {
    Text(String),
    Raw { base: Vec<u8>, below: Vec<String> },
}

/// A path below one of the user's directories, apart from how it is stored.
pub enum PathView {
    Text(Seq<char>),
    Raw { base: Seq<u8>, below: Seq<Seq<char>> },
}

impl View for FilePath {
    type V = PathView;

    open spec fn view(&self) -> PathView {
        match *self {
            FilePath::Text(text) => PathView::Text(text@),
            FilePath::Raw { base, below } => PathView::Raw { base: base@, below: texts(below@) },
        }
    }
}

/// The path of a name in a directory.
pub open spec fn under(dir: PathView, name: Seq<char>) -> PathView {
    match dir {
        PathView::Text(text) => PathView::Text(joined(text, name)),
        PathView::Raw { base, below } => PathView::Raw { base, below: below.push(name) },
    }
}

/// Whether a path lies in a directory.
pub open spec fn lies_within(path: PathView, dir: PathView) -> bool {
    match (path, dir) {
        (PathView::Text(p), PathView::Text(d)) => is_within(p, d),
        (
            PathView::Raw { base: pb, below: pn },
            PathView::Raw { base: db, below: dn },
        ) => pb == db && dn.is_prefix_of(pn),
        _ => false,
    }
}

/// Whether a path ends in a name with the given extension.
pub open spec fn ends_in(path: PathView, extension: Seq<char>) -> bool {
    match path {
        PathView::Text(text) => extension_of(text) == Some(extension),
        PathView::Raw { below, .. } => below.len() > 0 && exists|stem: Seq<char>|
            stem.len() > 0 && below.last() == #[trigger] (stem + seq!['.'] + extension),
    }
}

/// Whether a path that is given as text lies in a directory: never in one whose
/// path is not text.
pub open spec fn text_within(path: Seq<char>, dir: PathView) -> bool {
    match dir {
        PathView::Text(text) => is_within(path, text),
        PathView::Raw { .. } => false,
    }
}

/// What is known of an optional path.
pub open spec fn opt_view(path: Option<FilePath>) -> Option<PathView> {
    match path {
        Some(p) => Some(p@),
        None => None,
    }
}

impl FilePath {
    /// The path of a name in this directory. For a plain name it lies in the
    /// directory, no other plain name gives it, and it has the extension of the
    /// name.
    pub fn join(&self, name: &str) -> (r: FilePath)
        ensures
            r@ == under(self@, name@),
            plain_name(name@) ==> lies_within(r@, self@),
            forall|other: Seq<char>|
                plain_name(name@) && plain_name(other) && r@ == #[trigger] under(self@, other)
                    ==> other == name@,
            forall|stem: Seq<char>, extension: Seq<char>|
                plain_name(name@) && stem.len() > 0 && plain_extension(extension) && name@
                    == #[trigger] (stem + seq!['.'] + extension) ==> ends_in(r@, extension),
    {
        match self {
            FilePath::Text(text) => FilePath::Text(path_join(text.as_str(), name)),
            FilePath::Raw { base, below } => {
                let mut names: Vec<String> = Vec::with_capacity(below.len());
                for i in 0..below.len()
                    invariant
                        texts(names@) == texts(below@).take(i as int),
                {
                    let ghost before = names@;
                    names.push(below[i].clone());
                    assert(texts(names@) =~= texts(before).push(below@[i as int]@));
                    assert(texts(names@) =~= texts(below@).take(i + 1));
                }
                let ghost before = names@;
                names.push(name.to_owned());
                assert(texts(names@) =~= texts(before).push(name@));
                assert(texts(before) =~= texts(below@));
                let r = FilePath::Raw { base: base.clone(), below: names };
                proof {
                    assert(r->base@ =~= base@);
                    assert forall|other: Seq<char>| r@ == #[trigger] under(
                        self@,
                        other,
                    ) implies other == name@ by {
                        assert(texts(below@).push(other).last() == texts(below@).push(name@).last());
                    }
                }
                r
            },
        }
    }
}

/// Whether a path that is given as text lies in a directory.
pub(crate) fn is_text_within(path: &str, dir: &FilePath) -> (r: bool)
    ensures
        r == text_within(path@, dir@),
{
    match dir {
        FilePath::Text(text) => path_starts_with(path, text.as_str()),
        FilePath::Raw { .. } => false,
    }
}

/// `dirs::audio_dir`. It reads the user's environment, so nothing is claimed of
/// the result.
#[verifier::external_body]
pub(crate) fn audio_dir() -> (r: Option<FilePath>) {
    dirs::audio_dir().map(|dir| match dir.into_os_string().into_string() {
        Ok(text) => FilePath::Text(text),
        Err(raw) => FilePath::Raw { base: raw.into_encoded_bytes(), below: Vec::new() },
    })
}

/// `dirs::document_dir`. It reads the user's environment, so nothing is claimed of
/// the result.
#[verifier::external_body]
pub(crate) fn document_dir() -> (r: Option<FilePath>) {
    dirs::document_dir().map(|dir| match dir.into_os_string().into_string() {
        Ok(text) => FilePath::Text(text),
        Err(raw) => FilePath::Raw { base: raw.into_encoded_bytes(), below: Vec::new() },
    })
}

/// `dirs::data_dir`. It reads the user's environment, so nothing is claimed of
/// the result.
#[verifier::external_body]
pub(crate) fn data_dir() -> (r: Option<FilePath>) {
    dirs::data_dir().map(|dir| match dir.into_os_string().into_string() {
        Ok(text) => FilePath::Text(text),
        Err(raw) => FilePath::Raw { base: raw.into_encoded_bytes(), below: Vec::new() },
    })
}

/// The text of an optional string.
pub open spec fn opt_text(s: Option<String>) -> Option<Seq<char>> {
    match s {
        Some(t) => Some(t@),
        None => None,
    }
}

/// A name joined to a directory that is not text comes last, and the directory
/// stays; one that is text stays text.
pub proof fn law_joining_keeps_the_directory(dir: PathView, name: Seq<char>)
    ensures
        dir matches PathView::Text(text) ==> under(dir, name) == PathView::Text(
            joined(text, name),
        ),
        dir matches PathView::Raw { base, below } ==> (under(dir, name) matches PathView::Raw {
            base: b,
            below: n,
        } && b == base && n.len() == below.len() + 1 && n.drop_last() == below && n.last() == name
            && lies_within(under(dir, name), dir)),
{
    if let PathView::Raw { base, below } = dir {
        assert(below.push(name).drop_last() =~= below);
    }
}

/// A path is seen whole, and a text lies in a directory of text where `Path` finds
/// it there, and in no other.
pub proof fn law_path_is_seen_whole(path: FilePath, text: Seq<char>)
    ensures
        path matches FilePath::Text(t) ==> path@ == PathView::Text(t@) && text_within(text, path@)
            == is_within(text, t@),
        path is Raw ==> path@ is Raw && path@->base == path->base@,
        path is Raw ==> path@->below.len() == path->below@.len(),
        path is Raw ==> forall|i: int|
            0 <= i < path->below@.len() ==> #[trigger] path@->below[i] == path->below@[i]@,
        path is Raw ==> !text_within(text, path@),
{
}

/// An optional path or text is seen as it is.
pub proof fn law_optional_is_seen_whole(path: FilePath, text: String)
    ensures
        opt_view(Some(path)) == Some(path@),
        opt_view(None) is None,
        opt_text(Some(text)) == Some(text@),
        opt_text(None) is None,
{
}

/// Where a path lies and what it ends in: a text goes by what `Path` finds, and one
/// that is not text by its directory and its last name.
pub proof fn law_where_a_path_lies(path: PathView, dir: PathView, extension: Seq<char>)
    ensures
        path is Text != dir is Text ==> !lies_within(path, dir),
        path matches PathView::Text(p) ==> (dir matches PathView::Text(d) ==> lies_within(path, dir)
            == is_within(p, d)),
        path matches PathView::Text(p) ==> ends_in(path, extension) == (extension_of(p) == Some(
            extension,
        )),
        path matches PathView::Raw { base: pb, below: pn } ==> (dir matches PathView::Raw {
            base: db,
            below: dn,
        } ==> (lies_within(path, dir) <==> pb == db && dn.len() <= pn.len() && pn.take(
            dn.len() as int,
        ) == dn)),
        path matches PathView::Raw { base: _, below: pn } ==> (ends_in(path, extension) ==> pn.len()
            > 0 && pn.last().len() >= extension.len() + 2 && pn.last().skip(
            pn.last().len() - extension.len(),
        ) == extension && pn.last()[pn.last().len() - extension.len() - 1] == '.'),
{
    if let PathView::Raw { base: pb, below: pn } = path {
        if let PathView::Raw { base: db, below: dn } = dir {
            if dn.len() <= pn.len() {
                assert(pn.take(dn.len() as int) =~= pn.subrange(0, dn.len() as int));
            }
        }
        if ends_in(path, extension) {
            let stem = choose|stem: Seq<char>|
                stem.len() > 0 && pn.last() == #[trigger] (stem + seq!['.'] + extension);
            let last = pn.last();
            assert(last.skip(last.len() - extension.len()) =~= extension);
        }
    }
}

} // verus!
