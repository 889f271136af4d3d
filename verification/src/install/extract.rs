//! Zip extraction with path-traversal protection.
//!
//! Package archives come from arbitrary third-party hosts, so every entry
//! path is validated (via the zip crate's `enclosed_name`, and once more
//! component by component) before anything touches the filesystem: absolute
//! paths and `..` components are rejected outright instead of escaping the
//! staging directory.

use std::io::{Cursor, Read};
use vstd::prelude::*;
use crate::paths;
use crate::text;
use zip::ZipArchive;

verus! {

/// Errors that can occur while extracting a package archive.
#[derive(Clone, Debug)]
pub enum Error {
    /// The archive could not be opened or read.
    Archive {
        /// The archive file.
        path: String,
        /// Why it could not be read.
        reason: String,
    },
    /// An entry declares a path that would escape the extraction directory.
    UnsafePath(String),
    /// Plain I/O failure while writing extracted files.
    Io {
        /// The file or directory the operation failed on.
        path: String,
        /// Why it failed.
        reason: String,
    },
}

impl Error {
    /// The text of this error.
    pub open spec fn text(self) -> Seq<char> {
        match self {
            Error::Archive { path, reason } => "could not read the archive at "@ + path@,
            Error::UnsafePath(name) => "the archive entry `"@ + name@
                + "` has an unsafe path; refusing to extract"@,
            Error::Io { path, reason } => "I/O failed at "@ + path@,
        }
    }

    /// The texts of what caused this error, outermost first.
    pub open spec fn causes(self) -> Seq<Seq<char>> {
        match self {
            Error::Archive { path, reason } => seq![reason@],
            Error::UnsafePath(name) => Seq::empty(),
            Error::Io { path, reason } => seq![reason@],
        }
    }

    /// The texts of this error and of what caused it, outermost first.
    #[must_use]
    pub fn chain(&self) -> (chain: Vec<String>)
        ensures
            text::views(chain@) == seq![self.text()] + self.causes(),
    {
        let mut chain = vec![self.message()];
        match self {
            Error::Archive { reason, .. } => chain.push(reason.clone()),
            Error::UnsafePath(_) => {},
            Error::Io { reason, .. } => chain.push(reason.clone()),
        }
        assert(text::views(chain@) =~= seq![self.text()] + self.causes());
        chain
    }

    /// The text of this error.
    #[must_use]
    pub fn message(&self) -> (message: String)
        ensures
            message@ == self.text(),
    {
        match self {
            Error::Archive { path, .. } => {
                let mut message = "could not read the archive at ".to_owned();
                message.append(path.as_str());
                message
            },
            Error::UnsafePath(name) => {
                let mut message = "the archive entry `".to_owned();
                message.append(name.as_str());
                message.append("` has an unsafe path; refusing to extract");
                message
            },
            Error::Io { path, .. } => {
                let mut message = "I/O failed at ".to_owned();
                message.append(path.as_str());
                message
            },
        }
    }
}

// ---------------------------------------------------------------------------
// The zip crate
// ---------------------------------------------------------------------------

/// `std::io::Cursor`, the reader over an archive held in memory.
#[verifier::external_type_specification]
#[verifier::external_body]
#[verifier::reject_recursive_types(T)]
pub struct ExCursor<T>(Cursor<T>);

/// `zip::ZipArchive`, an opened archive.
#[verifier::external_type_specification]
#[verifier::external_body]
#[verifier::reject_recursive_types(R)]
pub struct ExZipArchive<R>(ZipArchive<R>);

/// The bytes an opened archive reads from.
pub uninterp spec fn held(archive: ZipArchive<Cursor<Vec<u8>>>) -> Seq<u8>;

/// Why the zip crate does not take some bytes for an archive, if it does not.
pub uninterp spec fn defect(archive: Seq<u8>) -> Option<Seq<char>>;

/// How many entries the zip crate finds in an archive.
pub uninterp spec fn entry_count(archive: Seq<u8>) -> nat;

/// The name of an entry of an archive, or why the entry cannot be read.
pub uninterp spec fn entry_name(archive: Seq<u8>, position: nat) -> Result<Seq<char>, Seq<char>>;

/// The relative path the zip crate finds enclosed in an entry name, if any: its
/// components, joined by `/`.
pub uninterp spec fn enclosing(name: Seq<char>) -> Option<Seq<char>>;

/// The uncompressed contents of an entry of an archive, or why they cannot be
/// read.
pub uninterp spec fn entry_contents(archive: Seq<u8>, position: nat) -> Result<
    Seq<u8>,
    Seq<char>,
>;

/// `zip::ZipArchive::new` on a cursor over the bytes: an archive reading from
/// exactly these bytes, or the text of the error. Which bytes are an archive is
/// named [`defect`] and depends on the bytes alone.
#[verifier::external_body]
fn open_zip(bytes: Vec<u8>) -> (opened: Result<ZipArchive<Cursor<Vec<u8>>>, String>)
    ensures
        match opened {
            Ok(archive) => held(archive) == bytes@ && defect(bytes@) is None,
            Err(problem) => defect(bytes@) == Some(problem@),
        },
{
    ZipArchive::new(Cursor::new(bytes)).map_err(|problem| problem.to_string())
}

/// `zip::ZipArchive::len`: the number of entries, a function of the bytes
/// alone, named [`entry_count`].
#[verifier::external_body]
fn count_entries(archive: &ZipArchive<Cursor<Vec<u8>>>) -> (count: usize)
    ensures
        count == entry_count(held(*archive)),
{
    archive.len()
}

/// Whether a text starts with a drive: a letter and a colon.
pub open spec fn starts_with_drive(text: Seq<char>) -> bool {
    text.len() > 1 && ('a' <= text[0] <= 'z' || 'A' <= text[0] <= 'Z') && text[1] == ':'
}

/// Whether a name holds the same path on every platform. It does not where a
/// later piece starts with a drive, or a drive follows the one that the name
/// starts with: some platforms start over there. Nor does it have to where it
/// starts with `\\?\`, behind which `/` does not separate.
pub open spec fn is_portable(name: Seq<char>) -> bool {
    &&& !(name.len() > 3 && name[0] == '\\' && name[1] == '\\' && name[2] == '?' && name[3] == '\\')
    &&& !(starts_with_drive(name) && starts_with_drive(name.skip(2)))
    &&& forall|i: int| 0 < i < pieces(name).len() ==> !starts_with_drive(#[trigger] pieces(name)[i])
}

/// Whether a path may be what a name is found to enclose.
pub open spec fn may_enclose(name: Seq<char>, path: Option<Seq<char>>) -> bool {
    is_portable(name) ==> path == enclosing(name)
}

/// The text of an optional path.
pub open spec fn path_text(path: Option<String>) -> Option<Seq<char>> {
    match path {
        Some(path) => Some(path@),
        None => None,
    }
}

/// `zip::ZipArchive::by_index`, then the `name` and the `enclosed_name` of the
/// entry, whose components are joined by `/`. The entry's name, or the text of
/// the error, depends on the bytes and the position alone and is named
/// [`entry_name`]. The crate finds the same components in a name everywhere, and
/// the path that they are joined to depends on the name alone, where the name
/// is portable; it is then named [`enclosing`]. Nothing is said about the path
/// of another name, which the platform decides. Reading an entry leaves the
/// archive on the same bytes.
#[verifier::external_body]
fn name_entry(archive: &mut ZipArchive<Cursor<Vec<u8>>>, position: usize) -> (names: Result<
    (String, Option<String>),
    String,
>)
    ensures
        held(*final(archive)) == held(*old(archive)),
        match names {
            Ok((name, path)) => entry_name(held(*old(archive)), position as nat) == Ok::<
                Seq<char>,
                Seq<char>,
            >(name@) && (is_portable(name@) ==> path_text(path) == enclosing(name@)),
            Err(problem) => entry_name(held(*old(archive)), position as nat) == Err::<
                Seq<char>,
                Seq<char>,
            >(problem@),
        },
{
    let entry = archive.by_index(position).map_err(|problem| problem.to_string())?;
    let path = entry.enclosed_name().and_then(|path| {
        let parts = path.iter().map(|part| part.to_str()).collect::<Option<Vec<&str>>>();
        parts.map(|parts| parts.join("/"))
    });
    Ok((entry.name().to_owned(), path))
}

/// `zip::ZipArchive::by_index`, then `std::io::Read::read_to_end` on the
/// entry: its uncompressed contents or the text of the error, which depend on
/// the bytes and the position alone and are named [`entry_contents`]. Reading
/// an entry leaves the archive on the same bytes.
#[verifier::external_body]
fn read_entry(archive: &mut ZipArchive<Cursor<Vec<u8>>>, position: usize) -> (contents: Result<
    Vec<u8>,
    String,
>)
    ensures
        held(*final(archive)) == held(*old(archive)),
        match contents {
            Ok(bytes) => entry_contents(held(*old(archive)), position as nat) == Ok::<
                Seq<u8>,
                Seq<char>,
            >(bytes@),
            Err(problem) => entry_contents(held(*old(archive)), position as nat) == Err::<
                Seq<u8>,
                Seq<char>,
            >(problem@),
        },
{
    let mut entry = archive.by_index(position).map_err(|problem| problem.to_string())?;
    let mut bytes: Vec<u8> = Vec::new();
    match entry.read_to_end(&mut bytes) {
        Ok(_) => Ok(bytes),
        Err(problem) => Err(problem.to_string()),
    }
}

// ---------------------------------------------------------------------------
// Entry paths
// ---------------------------------------------------------------------------

/// Whether a character separates path components in an archive.
pub open spec fn is_separator(c: char) -> bool {
    c == '/' || c == '\\'
}

/// The pieces of a path between its separators.
pub open spec fn pieces(path: Seq<char>) -> Seq<Seq<char>> {
    text::split_on(path, set!['/', '\\'])
}

/// Whether a path starts at a root: with a separator, or with a drive letter,
/// a colon and a separator.
pub open spec fn is_absolute(path: Seq<char>) -> bool {
    ||| path.len() > 0 && is_separator(path[0])
    ||| path.len() > 2 && ('a' <= path[0] <= 'z' || 'A' <= path[0] <= 'Z') && path[1] == ':'
        && is_separator(path[2])
}

/// Whether a path has a component that steps out of its directory.
pub open spec fn steps_out(path: Seq<char>) -> bool {
    pieces(path).contains(".."@)
}

/// Whether an entry may be extracted: its name encloses a path, and neither of
/// the two is absolute or steps out anywhere.
pub open spec fn is_safe(name: Seq<char>, enclosed: Option<Seq<char>>) -> bool {
    enclosed matches Some(path) && !is_absolute(name) && !steps_out(name) && !is_absolute(path)
        && !steps_out(path)
}

/// Whether a piece goes down one directory.
pub open spec fn goes_down(piece: Seq<char>) -> bool {
    piece.len() > 0 && piece != "."@
}

/// The pieces that go down one directory.
pub open spec fn descents(pieces: Seq<Seq<char>>) -> Seq<Seq<char>>
    decreases pieces.len(),
{
    if pieces.len() == 0 {
        Seq::empty()
    } else {
        let init = descents(pieces.drop_last());
        if goes_down(pieces.last()) {
            init.push(pieces.last())
        } else {
            init
        }
    }
}

/// The components a path goes down through.
pub open spec fn components(path: Seq<char>) -> Seq<Seq<char>> {
    descents(pieces(path))
}

/// Pieces without separators that do not step out go down through ordinary
/// components.
proof fn descents_are_components(pieces: Seq<Seq<char>>)
    requires
        forall|i: int, j: int|
            0 <= i < pieces.len() && 0 <= j < pieces[i].len() ==> #[trigger] pieces[i][j] != '/',
        forall|i: int| 0 <= i < pieces.len() ==> #[trigger] pieces[i] != ".."@,
    ensures
        forall|i: int|
            0 <= i < descents(pieces).len() ==> paths::is_component(#[trigger] descents(pieces)[i]),
    decreases pieces.len(),
{
    if pieces.len() > 0 {
        let init = pieces.drop_last();
        assert(forall|i: int, j: int|
            0 <= i < init.len() && 0 <= j < init[i].len() ==> init[i][j] == #[trigger] pieces[i][j]);
        assert(forall|i: int| 0 <= i < init.len() ==> #[trigger] init[i] == pieces[i]);
        descents_are_components(init);
        if goes_down(pieces.last()) {
            let last = pieces[pieces.len() - 1];
            assert(forall|j: int|
                0 <= j < last.len() ==> #[trigger] last[j] == pieces[pieces.len() - 1][j]);
            assert(paths::is_component(last));
        }
        let kept = descents(pieces);
        assert forall|i: int| 0 <= i < kept.len() implies paths::is_component(
            #[trigger] kept[i],
        ) by {
            if i < descents(init).len() {
                assert(kept[i] == descents(init)[i]);
            }
        }
    }
}

/// Whether an entry is a directory: its name ends in a separator.
pub open spec fn is_directory(name: Seq<char>) -> bool {
    name.len() > 0 && is_separator(name.last())
}

/// The path under `dest` that these components lead to.
pub open spec fn path_through(dest: Seq<char>, parts: Seq<Seq<char>>) -> Seq<char> {
    if parts.len() == 0 {
        paths::under(dest, ""@)
    } else {
        paths::through(dest, parts)
    }
}

/// Everything an entry creates lies under the extraction directory: its path
/// goes down from there through ordinary components only, and so does the path
/// of the directory it is in. Only an entry without a component of its own is
/// in the directory that the extraction directory is in.
pub proof fn extraction_stays_inside(
    dest: Seq<char>,
    name: Seq<char>,
    enclosed: Option<Seq<char>>,
)
    requires
        is_safe(name, enclosed),
    ensures
        ({
            let parts = components(enclosed->0);
            let path = path_through(dest, parts);
            let directory = paths::directory_part(path);
            let base = paths::trimmed(dest);
            &&& forall|i: int| 0 <= i < parts.len() ==> paths::is_component(#[trigger] parts[i])
            &&& path.take(dest.len() as int) == dest
            &&& if parts.len() == 0 {
                directory == paths::directory_part(dest)
            } else {
                directory == paths::trimmed(paths::through(dest, parts.drop_last()))
                    && directory.take(base.len() as int) == base
            }
        }),
{
    let enclosed = enclosed->0;
    let all = pieces(enclosed);
    let parts = components(enclosed);
    text::pieces_hold_no_separator(enclosed, set!['/', '\\']);
    assert forall|i: int, j: int| 0 <= i < all.len() && 0 <= j < all[i].len() implies
        #[trigger] all[i][j] != '/' by {
        assert(set!['/', '\\'].contains('/'));
    }
    descents_are_components(all);
    paths::through_stays_inside(dest, parts);
    paths::trimming_shortens(dest);
    if parts.len() > 0 {
        let init = parts.drop_last();
        assert(paths::is_component(parts[parts.len() - 1]));
        paths::components_are_in_their_directory(paths::through(dest, init), parts.last());
        assert forall|i: int| 0 <= i < init.len() implies paths::is_component(#[trigger] init[i]) by {
            assert(init[i] == parts[i]);
        }
        let inner = paths::through(dest, init);
        paths::through_stays_inside(dest, init);
        let base = paths::trimmed(dest);
        if init.len() > 0 {
            assert(paths::is_component(init[init.len() - 1]));
            paths::components_are_in_their_directory(
                paths::through(dest, init.drop_last()),
                init.last(),
            );
            assert(inner.take(base.len() as int) =~= inner.take(dest.len() as int).take(
                base.len() as int,
            ));
        } else {
            assert(base.take(base.len() as int) =~= base);
        }
    } else {
        reveal_strlit("");
        reveal_strlit("/");
        let path = path_through(dest, parts);
        assert(path.take(dest.len() as int) =~= dest);
        if dest.len() > 0 && dest.last() != '/' {
            assert(path.drop_last() =~= dest);
        } else {
            assert(path =~= dest);
        }
    }
}

/// Whether `c` separates path components.
fn separates(c: char) -> (separates: bool)
    ensures
        separates == is_separator(c),
{
    c == '/' || c == '\\'
}

/// Whether `path` starts at a root.
fn starts_at_root(path: &str) -> (absolute: bool)
    ensures
        absolute == is_absolute(path@),
{
    let length = path.unicode_len();
    if length > 0 && separates(path.get_char(0)) {
        return true;
    }
    if length > 2 {
        let drive = path.get_char(0);
        (('a' <= drive && drive <= 'z') || ('A' <= drive && drive <= 'Z')) && path.get_char(1) == ':'
            && separates(path.get_char(2))
    } else {
        false
    }
}

/// Whether `path` steps out of its directory anywhere.
fn leaves_its_directory(path: &str) -> (leaves: bool)
    ensures
        leaves == steps_out(path@),
{
    let pieces = text::split_at_either(path, '/', '\\');
    let leaves = text::holds(&pieces, "..");
    assert(leaves == steps_out(path@)) by {
        let views = text::views(pieces@);
        if text::lists(pieces@, ".."@) {
            let i = choose|i: int| 0 <= i < pieces@.len() && (#[trigger] pieces@[i])@ == ".."@;
            assert(views[i] == ".."@);
        }
        if views.contains(".."@) {
            let i = choose|i: int| 0 <= i < views.len() && views[i] == ".."@;
            assert(pieces@[i]@ == ".."@);
        }
    }
    leaves
}

/// The components `path` goes down through.
fn components_of(path: &str) -> (parts: Vec<String>)
    ensures
        text::views(parts@) == components(path@),
{
    let pieces = text::split_at_either(path, '/', '\\');
    let ghost all = text::views(pieces@);
    let mut parts: Vec<String> = Vec::new();
    let mut i: usize = 0;
    assert(all.take(0) =~= Seq::empty());
    assert(text::views(parts@) =~= descents(all.take(0)));
    while i < pieces.len()
        invariant
            all == text::views(pieces@),
            0 <= i <= pieces@.len(),
            text::views(parts@) == descents(all.take(i as int)),
        decreases pieces@.len() - i,
    {
        assert(all.take(i + 1).drop_last() =~= all.take(i as int));
        assert(all.take(i + 1).last() == pieces@[i as int]@);
        let piece = pieces[i].as_str();
        if piece.unicode_len() > 0 && !text::same(piece, ".") {
            let ghost shorter = text::views(parts@);
            parts.push(piece.to_owned());
            assert(text::views(parts@) =~= shorter.push(pieces@[i as int]@));
        }
        i = i + 1;
    }
    assert(all.take(i as int) =~= all);
    parts
}

/// Where an entry goes.
#[derive(Clone, Debug)]
pub enum Place {
    /// A directory to be created.
    Directory(String),
    /// A file to be written.
    File {
        /// The directory to be created for it.
        parent: String,
        /// The file itself.
        path: String,
    },
}

/// Where an entry goes, as text.
pub enum PlaceView {
    /// A directory to be created.
    Directory(Seq<char>),
    /// A file to be written, and the directory to be created for it.
    File { parent: Seq<char>, path: Seq<char> },
}

impl View for Place {
    type V = PlaceView;

    open spec fn view(&self) -> PlaceView {
        match self {
            Place::Directory(path) => PlaceView::Directory(path@),
            Place::File { parent, path } => PlaceView::File { parent: parent@, path: path@ },
        }
    }
}

/// Where an entry called `name` that encloses a path goes under `dest`.
pub open spec fn place_of(dest: Seq<char>, name: Seq<char>, enclosed: Seq<char>) -> PlaceView {
    let path = path_through(dest, components(enclosed));
    if is_directory(name) {
        PlaceView::Directory(path)
    } else {
        PlaceView::File { parent: paths::directory_part(path), path }
    }
}

/// Decides where the entry called `name`, which encloses the path
/// `enclosed`, goes under `dest`.
///
/// # Errors
///
/// Returns [`Error::UnsafePath`] when the entry could escape `dest`.
pub fn place(dest: &str, name: String, enclosed: Option<String>) -> (place: Result<Place, Error>)
    ensures
        match enclosed {
            Some(path) if is_safe(name@, Some(path@)) => place matches Ok(found) && found@
                == place_of(dest@, name@, path@),
            _ => place == Err::<Place, Error>(Error::UnsafePath(name)),
        },
{
    let path = match enclosed {
        Some(path) => path,
        None => return Err(Error::UnsafePath(name)),
    };
    if starts_at_root(name.as_str()) || leaves_its_directory(name.as_str()) || starts_at_root(
        path.as_str(),
    ) || leaves_its_directory(path.as_str()) {
        return Err(Error::UnsafePath(name));
    }
    let parts = components_of(path.as_str());
    let out = if parts.len() == 0 {
        paths::join(dest, "")
    } else {
        paths::join_all(dest, &parts)
    };
    let length = name.as_str().unicode_len();
    if length > 0 && separates(name.as_str().get_char(length - 1)) {
        return Ok(Place::Directory(out));
    }
    let parent = paths::directory(out.as_str());
    Ok(Place::File { parent, path: out })
}

/// A package archive, opened for extraction.
#[derive(Debug)]
pub struct Archive {
    /// Where the archive came from.
    path: String,
    /// The opened archive.
    zip: ZipArchive<Cursor<Vec<u8>>>,
}

impl Archive {
    /// The bytes of the archive.
    pub closed spec fn bytes(&self) -> Seq<u8> {
        held(self.zip)
    }

    /// Where the archive came from, as text.
    pub closed spec fn origin(&self) -> Seq<char> {
        self.path@
    }

    /// Opens the archive that was read from `path`.
    ///
    /// # Errors
    ///
    /// Returns an [`Error`] when the file could not be read or is not a zip
    /// archive.
    pub fn open(path: String, read: Result<Vec<u8>, String>) -> (opened: Result<Archive, Error>)
        ensures
            match read {
                Err(reason) => opened matches Err(Error::Io { path: at, reason: why }) && at == path
                    && why == reason,
                Ok(bytes) => match defect(bytes@) {
                    None => opened matches Ok(archive) && archive.bytes() == bytes@
                        && archive.origin() == path@,
                    Some(problem) => opened matches Err(Error::Archive { path: at, reason }) && at
                        == path && reason@ == problem,
                },
            },
    {
        let bytes = match read {
            Ok(bytes) => bytes,
            Err(reason) => return Err(Error::Io { path, reason }),
        };
        match open_zip(bytes) {
            Ok(zip) => Ok(Archive { path, zip }),
            Err(reason) => Err(Error::Archive { path, reason }),
        }
    }

    /// The number of entries in the archive.
    #[must_use]
    pub fn entries(&self) -> (count: usize)
        ensures
            count == entry_count(self.bytes()),
    {
        count_entries(&self.zip)
    }

    /// The contents of the entry at `position`, which goes into the file `path`.
    ///
    /// # Errors
    ///
    /// Returns an [`Error::Io`] at `path` when they could not be read.
    pub fn contents(&mut self, position: usize, path: &str) -> (contents: Result<Vec<u8>, Error>)
        ensures
            final(self).bytes() == old(self).bytes(),
            final(self).origin() == old(self).origin(),
            match entry_contents(old(self).bytes(), position as nat) {
                Ok(bytes) => contents matches Ok(found) && found@ == bytes,
                Err(problem) => contents matches Err(Error::Io { path: at, reason }) && at@ == path@
                    && reason@ == problem,
            },
    {
        match read_entry(&mut self.zip, position) {
            Ok(bytes) => Ok(bytes),
            Err(reason) => Err(Error::Io { path: path.to_owned(), reason }),
        }
    }
}

/// Whether a place is that of an entry called `name` under `dest`, for a path
/// that the name may enclose.
pub open spec fn may_go(name: Seq<char>, place: PlaceView, dest: Seq<char>) -> bool {
    exists|enclosed: Option<Seq<char>>|
        may_enclose(name, enclosed) && #[trigger] is_safe(name, enclosed) && place == place_of(
            dest,
            name,
            enclosed->0,
        )
}

/// Whether an entry called `name` is safe, for a path that the name may
/// enclose.
pub open spec fn may_be_safe(name: Seq<char>) -> bool {
    exists|enclosed: Option<Seq<char>>|
        may_enclose(name, enclosed) && #[trigger] is_safe(name, enclosed)
}

/// Whether an entry called `name` is unsafe, for a path that the name may
/// enclose.
pub open spec fn may_be_unsafe(name: Seq<char>) -> bool {
    exists|enclosed: Option<Seq<char>>|
        may_enclose(name, enclosed) && !#[trigger] is_safe(name, enclosed)
}

/// Whether the entry at a position of an archive may be extracted.
pub open spec fn passes(archive: Seq<u8>, position: nat) -> bool {
    entry_name(archive, position) matches Ok(name) && may_be_safe(name)
}

/// Whether a place is where the entry at a position of an archive goes under
/// `dest`.
pub open spec fn is_place(place: PlaceView, archive: Seq<u8>, position: nat, dest: Seq<char>) -> bool {
    entry_name(archive, position) matches Ok(name) && may_go(name, place, dest)
}

/// Whether an error is that of the entry at a position of an archive: it is
/// unreadable, or unsafe.
pub open spec fn is_refusal(
    error: Error,
    archive: Seq<u8>,
    position: nat,
    origin: Seq<char>,
) -> bool {
    match entry_name(archive, position) {
        Err(problem) => error matches Error::Archive { path, reason } && path@ == origin && reason@
            == problem,
        Ok(name) => error matches Error::UnsafePath(refused) && refused@ == name && may_be_unsafe(
            name,
        ),
    }
}

/// The places of a list of entries.
pub open spec fn place_views(places: Seq<Place>) -> Seq<PlaceView> {
    places.map_values(|place: Place| place@)
}

/// Whether extracting an archive under `dest` comes to a result: the place of
/// every entry, or the error of the first one that is refused.
pub open spec fn is_extraction(
    result: Result<Seq<PlaceView>, Error>,
    archive: Seq<u8>,
    origin: Seq<char>,
    dest: Seq<char>,
) -> bool {
    match result {
        Ok(places) => places.len() == entry_count(archive) && forall|k: nat|
            k < places.len() ==> is_place(#[trigger] places[k as int], archive, k, dest),
        Err(error) => exists|k: nat|
            k < entry_count(archive) && #[trigger] is_refusal(error, archive, k, origin) && forall|
                earlier: nat,
            | earlier < k ==> #[trigger] passes(archive, earlier),
    }
}

/// A list of places, or the error in place of it.
pub open spec fn extraction_view(result: Result<Vec<Place>, Error>) -> Result<
    Seq<PlaceView>,
    Error,
> {
    match result {
        Ok(places) => Ok(place_views(places@)),
        Err(error) => Err(error),
    }
}

/// Decides where the entry at `position` of `archive` goes under `dest`.
fn place_entry(archive: &mut Archive, position: usize, dest: &str) -> (place: Result<Place, Error>)
    ensures
        final(archive).bytes() == old(archive).bytes(),
        final(archive).origin() == old(archive).origin(),
        match place {
            Ok(place) => passes(old(archive).bytes(), position as nat) && is_place(
                place@,
                old(archive).bytes(),
                position as nat,
                dest@,
            ),
            Err(error) => is_refusal(
                error,
                old(archive).bytes(),
                position as nat,
                old(archive).origin(),
            ),
        },
{
    let (name, enclosed) = match name_entry(&mut archive.zip, position) {
        Ok(names) => names,
        Err(reason) => return Err(Error::Archive { path: archive.path.clone(), reason }),
    };
    let ghost called = name@;
    let ghost found = path_text(enclosed);
    let place = place(dest, name, enclosed);
    assert(may_enclose(called, found));
    assert(place is Ok ==> is_safe(called, found));
    assert(place is Err ==> !is_safe(called, found));
    place
}

/// Extracts `archive` into `dest` (which is created if needed): says where each
/// of its entries goes. Every entry is validated before anything is written, so
/// an archive with an unsafe path is refused as a whole. The places go by what
/// the zip crate finds enclosed in the names, which is named for portable
/// names.
///
/// A directory is created with all its parents. For a file its directory is
/// created, then the file, and then [`Archive::contents`] are written to it.
///
/// # Errors
///
/// Returns an [`Error`] when an entry is unreadable or has an unsafe path: that
/// of the first such entry.
pub fn extract(archive: &mut Archive, dest: &str) -> (places: Result<Vec<Place>, Error>)
    ensures
        final(archive).bytes() == old(archive).bytes(),
        final(archive).origin() == old(archive).origin(),
        is_extraction(
            extraction_view(places),
            old(archive).bytes(),
            old(archive).origin(),
            dest@,
        ),
{
    let ghost bytes = archive.bytes();
    let ghost origin = archive.origin();
    let count = archive.entries();
    let mut places: Vec<Place> = Vec::new();
    let mut position: usize = 0;
    while position < count
        invariant
            bytes == old(archive).bytes(),
            origin == old(archive).origin(),
            archive.bytes() == bytes,
            archive.origin() == origin,
            count == entry_count(bytes),
            position <= count,
            places@.len() == position,
            forall|k: nat| k < position ==> #[trigger] passes(bytes, k),
            forall|k: nat|
                k < position ==> is_place(#[trigger] place_views(places@)[k as int], bytes, k, dest@),
        decreases count - position,
    {
        let ghost shorter = place_views(places@);
        let place = match place_entry(archive, position, dest) {
            Ok(place) => place,
            Err(error) => {
                assert(is_refusal(error, bytes, position as nat, origin));
                return Err(error);
            },
        };
        let ghost added = place@;
        places.push(place);
        assert(place_views(places@) =~= shorter.push(added));
        assert forall|k: nat| k < position + 1 implies is_place(
            #[trigger] place_views(places@)[k as int],
            bytes,
            k,
            dest@,
        ) by {
            if k < position {
                assert(shorter[k as int] == place_views(places@)[k as int]);
            }
        }
        position = position + 1;
    }
    Ok(places)
}

/// One unsafe entry is enough to have the whole archive refused, before
/// anything of it is written: one whose name is absolute or steps out anywhere,
/// or encloses no such path.
pub proof fn one_unsafe_entry_refuses_the_archive(
    result: Result<Seq<PlaceView>, Error>,
    archive: Seq<u8>,
    origin: Seq<char>,
    dest: Seq<char>,
    position: nat,
    name: Seq<char>,
)
    requires
        is_extraction(result, archive, origin, dest),
        position < entry_count(archive),
        entry_name(archive, position) == Ok::<Seq<char>, Seq<char>>(name),
        is_absolute(name) || steps_out(name) || (is_portable(name) && !is_safe(
            name,
            enclosing(name),
        )),
    ensures
        result is Err,
{
    if let Ok(places) = result {
        assert(is_place(places[position as int], archive, position, dest));
    }
}

/// An archive whose entries are all readable and safe is extracted.
pub proof fn safe_archives_are_extracted(
    result: Result<Seq<PlaceView>, Error>,
    archive: Seq<u8>,
    origin: Seq<char>,
    dest: Seq<char>,
)
    requires
        is_extraction(result, archive, origin, dest),
        forall|position: nat| #![trigger entry_name(archive, position)]
            position < entry_count(archive) ==> (entry_name(archive, position) matches Ok(name)
                && is_portable(name) && is_safe(name, enclosing(name))),
    ensures
        result is Ok,
{
}

/// Everything an archive creates lies under the extraction directory, but for
/// the directory that this is in.
pub proof fn extracted_places_stay_inside(
    places: Seq<PlaceView>,
    archive: Seq<u8>,
    origin: Seq<char>,
    dest: Seq<char>,
    position: nat,
)
    requires
        is_extraction(Ok::<Seq<PlaceView>, Error>(places), archive, origin, dest),
        position < places.len(),
    ensures
        match places[position as int] {
            PlaceView::Directory(path) => path.take(dest.len() as int) == dest,
            PlaceView::File { parent, path } => path.take(dest.len() as int) == dest && (parent.take(
                paths::trimmed(dest).len() as int,
            ) == paths::trimmed(dest) || parent == paths::directory_part(dest)),
        },
{
    let place = places[position as int];
    assert(is_place(place, archive, position, dest));
    let name = entry_name(archive, position)->Ok_0;
    let enclosed = choose|enclosed: Option<Seq<char>>|
        may_enclose(name, enclosed) && #[trigger] is_safe(name, enclosed) && place == place_of(
            dest,
            name,
            enclosed->0,
        );
    extraction_stays_inside(dest, name, enclosed);
}

/// The test for pieces of a path that name something.
pub open spec fn names_something() -> spec_fn(Seq<char>) -> bool {
    |piece: Seq<char>| piece.len() > 0 && piece != "."@
}

/// The components of a path are all its pieces between separators but the empty
/// ones and the single dots, in their order.
pub proof fn components_are_the_named_pieces(pieces: Seq<Seq<char>>)
    ensures
        descents(pieces) == pieces.filter(names_something()),
    decreases pieces.len(),
{
    reveal(Seq::filter);
    if pieces.len() > 0 {
        components_are_the_named_pieces(pieces.drop_last());
    }
}

/// Both slashes separate the pieces of a path: a path has the same pieces when
/// every backslash is replaced by a slash, and joined by slashes they are that
/// path.
pub proof fn both_slashes_separate(path: Seq<char>)
    ensures
        text::joined(pieces(path), seq!['/']) == path.map_values(
            |c: char|
                if c == '\\' {
                    '/'
                } else {
                    c
                },
        ),
        forall|i: int, j: int|
            0 <= i < pieces(path).len() && 0 <= j < pieces(path)[i].len()
                ==> #[trigger] pieces(path)[i][j] != '/' && pieces(path)[i][j] != '\\',
{
    text::separators_are_alike(path, '/', '\\');
    text::joining_undoes_splitting(
        path.map_values(
            |c: char|
                if c == '\\' {
                    '/'
                } else {
                    c
                },
        ),
        '/',
    );
    text::pieces_hold_no_separator(path, set!['/', '\\']);
    assert forall|i: int, j: int| 0 <= i < pieces(path).len() && 0 <= j < pieces(path)[i].len()
        implies #[trigger] pieces(path)[i][j] != '/' && pieces(path)[i][j] != '\\' by {
        assert(!set!['/', '\\'].contains(pieces(path)[i][j]));
    }
}

/// A path is absolute just when it starts with a slash or a backslash, alone or
/// behind a drive letter and a colon.
pub proof fn absolute_paths_start_at_a_root(path: Seq<char>)
    ensures
        is_absolute(path) <==> {
            ||| path.len() > 0 && (path[0] == '/' || path[0] == '\\')
            ||| starts_with_drive(path) && path.len() > 2 && (path[2] == '/' || path[2] == '\\')
        },
        starts_with_drive(path) <==> path.len() > 1 && path[1] == ':' && ('a' <= path[0] <= 'z'
            || 'A' <= path[0] <= 'Z'),
{
}

/// An entry is safe just when its name encloses a path and neither of the two is
/// absolute or has a piece that is two dots.
pub proof fn safe_entries_never_step_out(name: Seq<char>, enclosed: Option<Seq<char>>)
    ensures
        is_safe(name, enclosed) <==> {
            &&& enclosed is Some
            &&& !is_absolute(name)
            &&& !is_absolute(enclosed->0)
            &&& forall|i: int| 0 <= i < pieces(name).len() ==> #[trigger] pieces(name)[i] != ".."@
            &&& forall|i: int|
                0 <= i < pieces(enclosed->0).len() ==> #[trigger] pieces(enclosed->0)[i] != ".."@
        },
{
    if enclosed is Some {
        let path = enclosed->0;
        assert forall|i: int| 0 <= i < pieces(path).len() implies (#[trigger] pieces(path)[i]
            == ".."@ ==> steps_out(path)) by {}
        assert forall|i: int| 0 <= i < pieces(name).len() implies (#[trigger] pieces(name)[i]
            == ".."@ ==> steps_out(name)) by {}
        if steps_out(path) {
            let i = choose|i: int| 0 <= i < pieces(path).len() && pieces(path)[i] == ".."@;
            assert(pieces(path)[i] == ".."@);
        }
        if steps_out(name) {
            let i = choose|i: int| 0 <= i < pieces(name).len() && pieces(name)[i] == ".."@;
            assert(pieces(name)[i] == ".."@);
        }
    }
}

/// Ordinary components lead to where they lead joined by slashes.
proof fn components_are_joined(dest: Seq<char>, parts: Seq<Seq<char>>)
    requires
        parts.len() > 0,
        forall|i: int| 0 <= i < parts.len() ==> paths::is_component(#[trigger] parts[i]),
    ensures
        paths::through(dest, parts) == paths::under(dest, text::joined(parts, "/"@)),
        paths::through(dest, parts).len() > 0,
        paths::through(dest, parts).last() != '/',
        text::joined(parts, "/"@).len() > 0,
        text::joined(parts, "/"@)[0] != '/',
    decreases parts.len(),
{
    reveal_strlit("/");
    let last = parts.last();
    assert(paths::is_component(parts[parts.len() - 1]));
    assert(last[0] != '/' && last[last.len() - 1] != '/');
    let init = parts.drop_last();
    if init.len() == 0 {
        assert(paths::through(dest, init) == dest);
        assert(paths::through(dest, parts) == paths::under(dest, last));
        assert(parts[0] == last);
    } else {
        assert forall|i: int| 0 <= i < init.len() implies paths::is_component(#[trigger] init[i]) by {
            assert(init[i] == parts[i]);
        }
        components_are_joined(dest, init);
        let front = text::joined(init, "/"@);
        let all = text::joined(parts, "/"@);
        assert(all == front + "/"@ + last);
        assert(all[0] == front[0]);
        assert(paths::through(dest, parts) =~= paths::under(dest, all));
    }
}

/// A safe entry goes to its own relative path under the extraction directory:
/// the components of the path that it encloses, joined by slashes. It is a
/// directory just when its name ends in a slash or a backslash.
pub proof fn entries_keep_their_relative_path(
    dest: Seq<char>,
    name: Seq<char>,
    enclosed: Seq<char>,
)
    requires
        is_safe(name, Some(enclosed)),
    ensures
        ({
            let parts = pieces(enclosed).filter(names_something());
            let path = match place_of(dest, name, enclosed) {
                PlaceView::Directory(path) => path,
                PlaceView::File { parent, path } => path,
            };
            &&& path == paths::under(dest, text::joined(parts, "/"@))
            &&& place_of(dest, name, enclosed) is Directory <==> name.len() > 0 && (name.last() == '/'
                || name.last() == '\\')
            &&& place_of(dest, name, enclosed) matches PlaceView::File { parent, path }
                ==> parent == paths::directory_part(path)
        }),
{
    reveal_strlit("");
    components_are_the_named_pieces(pieces(enclosed));
    extraction_stays_inside(dest, name, Some(enclosed));
    let parts = components(enclosed);
    if parts.len() > 0 {
        components_are_joined(dest, parts);
    } else {
        assert(text::joined(parts, "/"@) =~= ""@);
    }
}

/// Errors name the file or the entry they are about, and are followed by what
/// caused them.
pub proof fn errors_name_their_subject(error: Error)
    ensures
        error matches Error::Archive { path, reason } ==> text::contains_text(error.text(), path@)
            && error.causes() == seq![reason@],
        error matches Error::UnsafePath(name) ==> text::contains_text(error.text(), name@)
            && error.causes().len() == 0,
        error matches Error::Io { path, reason } ==> text::contains_text(error.text(), path@)
            && error.causes() == seq![reason@],
{
    match error {
        Error::Archive { path, reason } => {
            text::texts_contain_their_middle(
                "could not read the archive at "@,
                path@,
                Seq::empty(),
            );
        },
        Error::UnsafePath(name) => {
            text::texts_contain_their_middle(
                "the archive entry `"@,
                name@,
                "` has an unsafe path; refusing to extract"@,
            );
        },
        Error::Io { path, reason } => {
            text::texts_contain_their_middle("I/O failed at "@, path@, Seq::empty());
        },
    }
}

/// A refused archive is refused for its first entry that cannot be read or is
/// not safe: with the error of the zip crate, or with the name of the entry. An
/// extracted one has the place of every entry.
pub proof fn the_first_bad_entry_is_blamed(
    result: Result<Seq<PlaceView>, Error>,
    archive: Seq<u8>,
    origin: Seq<char>,
    dest: Seq<char>,
)
    requires
        is_extraction(result, archive, origin, dest),
        forall|position: nat| #![trigger entry_name(archive, position)]
            position < entry_count(archive) ==> (entry_name(archive, position) matches Ok(name)
                ==> is_portable(name)),
    ensures
        result matches Err(error) ==> exists|k: nat|
            {
                &&& k < entry_count(archive)
                &&& match #[trigger] entry_name(archive, k) {
                    Err(problem) => error matches Error::Archive { path, reason } && path@ == origin
                        && reason@ == problem,
                    Ok(name) => error matches Error::UnsafePath(refused) && refused@ == name
                        && !is_safe(name, enclosing(name)),
                }
                &&& forall|earlier: nat|
                    earlier < k ==> (#[trigger] entry_name(archive, earlier) matches Ok(name)
                        && is_safe(name, enclosing(name)))
            },
        result matches Ok(places) ==> places.len() == entry_count(archive) && forall|k: nat|
            k < places.len() ==> (entry_name(archive, k) matches Ok(name) && is_safe(
                name,
                enclosing(name),
            ) && #[trigger] places[k as int] == place_of(dest, name, enclosing(name)->0)),
{
    match result {
        Err(error) => {
            let k = choose|k: nat|
                k < entry_count(archive) && #[trigger] is_refusal(error, archive, k, origin)
                    && forall|earlier: nat| earlier < k ==> #[trigger] passes(archive, earlier);
            assert forall|earlier: nat| earlier < k implies (#[trigger] entry_name(
                archive,
                earlier,
            ) matches Ok(name) && is_safe(name, enclosing(name))) by {
                assert(passes(archive, earlier));
            }
            assert(entry_name(archive, k) is Ok || entry_name(archive, k) is Err);
        },
        Ok(places) => {
            assert forall|k: nat| k < places.len() implies (entry_name(archive, k) matches Ok(name)
                && is_safe(name, enclosing(name)) && #[trigger] places[k as int] == place_of(
                dest,
                name,
                enclosing(name)->0,
            )) by {
                assert(is_place(places[k as int], archive, k, dest));
            }
        },
    }
}

} // verus!
