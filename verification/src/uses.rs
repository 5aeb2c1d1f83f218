//! The files that a module uses, and where they are to be found.

use vstd::prelude::*;
use vstd::string::*;
use crate::diagnostics::{warning_message, Diagnostics, MessageView};
use crate::gsn::ModuleInformation;
use crate::text::{replace_char, replaced, texts};

verus! {

/// A path with all separators written as `/`.
pub open spec fn forward_slashes(path: Seq<char>) -> Seq<char> {
    replaced(path, '\\', '/')
}

/// Whether a path is relative, by `Path::is_relative`.
///
/// What counts as relative differs between operating systems, so nothing is claimed of the result.
#[verifier::external_body]
pub(crate) fn path_is_relative(path: &String) -> bool {
    std::path::Path::new(path).is_relative()
}

/// Whether a path is absolute, by `Path::is_absolute`. A path is documented to be relative, by
/// `Path::is_relative`, if it is not absolute: the two never give the same answer.
///
/// What counts as absolute differs between operating systems, so nothing else is claimed of the
/// result.
#[verifier::external_body]
pub(crate) fn path_is_absolute(path: &String) -> (absolute: bool)
    ensures
        !call_ensures(path_is_relative, (path,), absolute),
{
    std::path::Path::new(path).is_absolute()
}

/// The directory of a path, by `Path::parent`, which is documented to give none for an empty path.
///
/// How a path divides into its parts differs between operating systems, so nothing else is claimed
/// of the result.
#[verifier::external_body]
pub(crate) fn path_parent(path: &String) -> (parent: Option<String>)
    ensures
        path@.len() == 0 ==> parent is None,
{
    match std::path::Path::new(path).parent() {
        Some(parent) => Some(parent.to_string_lossy().into_owned()),
        None => None,
    }
}

/// A path that leads on from a directory, by `PathBuf::push`.
///
/// Which separator is put in between differs between operating systems, so nothing is claimed of
/// the result.
#[verifier::external_body]
pub(crate) fn path_join(directory: &String, path: &String) -> String {
    let mut joined = std::path::PathBuf::from(directory);
    joined.push(path);
    joined.to_string_lossy().into_owned()
}

/// Where a file that a module uses is to be found.
#[derive(Debug)]
pub enum UsePlace {
    /// Beside the file that uses it: the path from there, if that file is in a directory.
    Relative(Option<String>),
    /// Where its own path says.
    Absolute,
    /// Neither.
    Unclear,
}

/// The files that a module uses, each where it is to be found, with `/` as separator.
///
/// Files for which there is no place are left out.
pub open spec fn used_files(uses: Seq<Seq<char>>, places: Seq<UsePlace>) -> Seq<Seq<char>>
    decreases uses.len(),
{
    if uses.len() == 0 {
        Seq::empty()
    } else {
        let before = used_files(uses.drop_last(), places.drop_last());
        match places.last() {
            UsePlace::Relative(Some(path)) => before.push(forward_slashes(path@)),
            UsePlace::Relative(None) => before,
            UsePlace::Absolute => before.push(forward_slashes(uses.last())),
            UsePlace::Unclear => before,
        }
    }
}

/// The warning about a used file that has no place.
pub open spec fn unclear_use_text(used: Seq<char>) -> Seq<char> {
    "Could not identify used file "@ + used + " in module; ignoring it."@
}

/// The messages after the files that a module uses were located: one warning for each of those
/// that are neither relative nor absolute.
pub open spec fn with_unclear_uses(
    messages: Seq<MessageView>,
    module: Seq<char>,
    uses: Seq<Seq<char>>,
    places: Seq<UsePlace>,
) -> Seq<MessageView>
    decreases uses.len(),
{
    if uses.len() == 0 {
        messages
    } else {
        let before = with_unclear_uses(messages, module, uses.drop_last(), places.drop_last());
        match places.last() {
            UsePlace::Unclear => before.push(
                warning_message(Some(module), unclear_use_text(uses.last())),
            ),
            _ => before,
        }
    }
}

/// The files that a module uses, given where each of them is to be found.
pub fn resolve_uses(meta: &ModuleInformation, places: &Vec<UsePlace>, diags: &mut Diagnostics) -> (files:
    Vec<String>)
    requires
        places@.len() == meta.uses@.len(),
    ensures
        texts(files@) == used_files(meta@.uses, places@),
        final(diags)@ == with_unclear_uses(old(diags)@, meta@.name, meta@.uses, places@),
{
    let mut files: Vec<String> = Vec::new();
    let ghost uses = meta@.uses;
    assert(texts(files@) == used_files(uses.take(0), places@.take(0)));
    for i in 0..places.len()
        invariant
            places@.len() == meta.uses@.len(),
            uses == meta@.uses,
            texts(files@) == used_files(uses.take(i as int), places@.take(i as int)),
            diags@ == with_unclear_uses(
                old(diags)@,
                meta@.name,
                uses.take(i as int),
                places@.take(i as int),
            ),
    {
        let ghost before = files@;
        let used = &meta.uses[i];
        proof {
            assert(uses.take(i + 1).drop_last() == uses.take(i as int));
            assert(places@.take(i + 1).drop_last() == places@.take(i as int));
            assert(uses.take(i + 1).last() == used@);
        }
        match &places[i] {
            UsePlace::Relative(Some(path)) => {
                files.push(replace_char(path.as_str(), '\\', '/'));
                assert(texts(files@) == texts(before).push(forward_slashes(path@)));
            },
            UsePlace::Relative(None) => {},
            UsePlace::Absolute => {
                files.push(replace_char(used.as_str(), '\\', '/'));
                assert(texts(files@) == texts(before).push(forward_slashes(used@)));
            },
            UsePlace::Unclear => {
                let mut text = "Could not identify used file ".to_owned();
                text.append(used.as_str());
                text.append(" in module; ignoring it.");
                diags.add_warning(Some(meta.name.as_str()), text);
            },
        }
    }
    assert(uses.take(places@.len() as int) == uses);
    assert(places@.take(places@.len() as int) == places@);
    files
}

/// Whether a path leads on to a used file from the directory of the file that uses it.
spec fn leads_on(input: String, directory: String, used: String, path: String) -> bool {
    &&& call_ensures(path_parent, (&input,), Some(directory))
    &&& call_ensures(path_join, (&directory, &used), path)
}

/// Whether a path leads to a used file that is found beside the file that uses it.
spec fn beside(input: String, used: String, path: String) -> bool {
    &&& call_ensures(path_is_relative, (&used,), true)
    &&& exists|directory: String| leads_on(input, directory, used, path)
}

/// What the operating system's answers about two paths make of the place of a used file.
spec fn answered(input: String, used: String, place: UsePlace) -> bool {
    match place {
        UsePlace::Relative(Some(path)) => beside(input, used, path),
        UsePlace::Relative(None) => {
            &&& call_ensures(path_is_relative, (&used,), true)
            &&& call_ensures(path_parent, (&input,), None)
        },
        UsePlace::Absolute => {
            &&& call_ensures(path_is_relative, (&used,), false)
            &&& call_ensures(path_is_absolute, (&used,), true)
        },
        UsePlace::Unclear => {
            &&& call_ensures(path_is_relative, (&used,), false)
            &&& call_ensures(path_is_absolute, (&used,), false)
        },
    }
}

/// Whether a place is where a used file is to be found, seen from the file that uses it.
///
/// A relative path leads on from the directory of the file that uses it, an absolute path is taken
/// as it is. Which paths are relative and absolute, what the directory of a file is and how a path
/// leads on from it is what the operating system makes of them.
pub closed spec fn is_place_of(input: Seq<char>, used: Seq<char>, place: UsePlace) -> bool {
    exists|from: String, to: String|
        from@ == input && to@ == used && #[trigger] answered(from, to, place)
}

/// Whether places are where used files are to be found, one by one.
pub open spec fn are_places_of(
    input: Seq<char>,
    uses: Seq<Seq<char>>,
    places: Seq<UsePlace>,
) -> bool {
    &&& places.len() == uses.len()
    &&& forall|i: int|
        0 <= i < places.len() ==> is_place_of(input, uses[i], #[trigger] places[i])
}

/// The place of a used file follows from what the operating system makes of its path and of that of
/// the file that uses it: a relative path leads on from the directory of the file that uses it, if
/// it has one, and an absolute path is taken as it is.
pub(crate) proof fn places_follow_from_the_paths(
    input: Seq<char>,
    used: Seq<char>,
    place: UsePlace,
) -> (paths: (String, String, String))
    requires
        is_place_of(input, used, place),
    ensures
        paths.0@ == input,
        paths.1@ == used,
        place matches UsePlace::Relative(Some(path)) ==> {
            &&& call_ensures(path_is_relative, (&paths.1,), true)
            &&& call_ensures(path_parent, (&paths.0,), Some(paths.2))
            &&& call_ensures(path_join, (&paths.2, &paths.1), path)
        },
        place matches UsePlace::Relative(None) ==> {
            &&& call_ensures(path_is_relative, (&paths.1,), true)
            &&& call_ensures(path_parent, (&paths.0,), None)
        },
        place is Absolute ==> {
            &&& call_ensures(path_is_relative, (&paths.1,), false)
            &&& call_ensures(path_is_absolute, (&paths.1,), true)
        },
        !(place is Unclear),
{
    let (from, to) = choose|from: String, to: String|
        from@ == input && to@ == used && #[trigger] answered(from, to, place);
    assert(answered(from, to, place));
    match place {
        UsePlace::Relative(Some(path)) => {
            assert(beside(from, to, path));
            let directory = choose|directory: String| leads_on(from, directory, to, path);
            assert(leads_on(from, directory, to, path));
            (from, to, directory)
        },
        _ => (from, to, arbitrary()),
    }
}

/// Places are those of used files if there is one for each of them, in their order.
pub proof fn every_use_has_its_place(input: Seq<char>, uses: Seq<Seq<char>>, places: Seq<UsePlace>)
    ensures
        are_places_of(input, uses, places) <==> uses.len() == places.len() && forall|i: int|
            0 <= i < uses.len() ==> is_place_of(input, uses[i], #[trigger] places[i]),
{
}

/// Every used file has a path that is relative or absolute.
pub proof fn every_use_is_relative_or_absolute(input: Seq<char>, used: Seq<char>)
    ensures
        !is_place_of(input, used, UsePlace::Unclear),
{
}

/// There is no warning about files whose places are where they are to be found.
pub proof fn located_uses_are_not_warned_about(
    messages: Seq<MessageView>,
    module: Seq<char>,
    input: Seq<char>,
    uses: Seq<Seq<char>>,
    places: Seq<UsePlace>,
)
    requires
        are_places_of(input, uses, places),
    ensures
        with_unclear_uses(messages, module, uses, places) == messages,
    decreases uses.len(),
{
    if uses.len() > 0 {
        assert(is_place_of(input, uses.last(), places.last()));
        every_use_is_relative_or_absolute(input, uses.last());
        assert forall|i: int| 0 <= i < places.drop_last().len() implies is_place_of(
            input,
            uses.drop_last()[i],
            #[trigger] places.drop_last()[i],
        ) by {
            assert(places.drop_last()[i] == places[i]);
        }
        located_uses_are_not_warned_about(
            messages,
            module,
            input,
            uses.drop_last(),
            places.drop_last(),
        );
    }
}

/// A file in no directory has no files beside it.
pub proof fn nothing_beside_an_empty_path(used: Seq<char>, path: String)
    ensures
        !is_place_of(Seq::empty(), used, UsePlace::Relative(Some(path))),
{
}

/// Where a used file is to be found, seen from the file that uses it.
fn locate(input: &String, used: &String) -> (place: UsePlace)
    ensures
        is_place_of(input@, used@, place),
{
    let place = if path_is_relative(used) {
        match path_parent(input) {
            Some(directory) => {
                let path = path_join(&directory, used);
                assert(leads_on(*input, directory, *used, path));
                assert(beside(*input, *used, path));
                UsePlace::Relative(Some(path))
            },
            None => UsePlace::Relative(None),
        }
    } else if path_is_absolute(used) {
        UsePlace::Absolute
    } else {
        UsePlace::Unclear
    };
    assert(answered(*input, *used, place));
    place
}

/// Where the files that a module uses are to be found.
pub fn locate_uses(meta: &ModuleInformation, input: &String) -> (places: Vec<UsePlace>)
    ensures
        are_places_of(input@, meta@.uses, places@),
{
    let mut places: Vec<UsePlace> = Vec::new();
    for i in 0..meta.uses.len()
        invariant
            places@.len() == i,
            forall|j: int|
                0 <= j < i ==> is_place_of(input@, meta@.uses[j], #[trigger] places@[j]),
    {
        places.push(locate(input, &meta.uses[i]));
    }
    places
}

/// The files that a module uses.
///
/// Where each of them is to be found is up to the operating system; [`resolve_uses`] says what
/// follows from that. Every path is relative or absolute, so there is never a warning.
pub fn get_uses_files(meta: &ModuleInformation, input: &String, diags: &mut Diagnostics) -> (files:
    Vec<String>)
    ensures
        final(diags)@ == old(diags)@,
        exists|places: Seq<UsePlace>| #[trigger]
            are_places_of(input@, meta@.uses, places) && texts(files@) == used_files(
                meta@.uses,
                places,
            ),
{
    let places = locate_uses(meta, input);
    proof {
        located_uses_are_not_warned_about(diags@, meta@.name, input@, meta@.uses, places@);
    }
    resolve_uses(meta, &places, diags)
}

} // verus!
