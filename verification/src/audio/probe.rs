//! Guessing the format of a media source from its name and content type.

use vstd::prelude::*;

use crate::text::{
    before, is_blank, lemma_trimmed_ignores_blanks, lemma_up_to_has_no_end,
    lemma_up_to_ignores_the_rest, lemma_up_to_keeps_the_start, same, starts_with, trim, trimmed,
    up_to,
};

verus! {

/// The file extension that stands for a content type.
pub open spec fn mime_extension(mime: Seq<char>) -> Option<Seq<char>> {
    let essence = trimmed(up_to(mime, ';'));
    if essence == "audio/mp4"@ || essence == "video/mp4"@ {
        Some("mp4"@)
    } else if essence == "audio/mpeg"@ {
        Some("mp3"@)
    } else if essence == "audio/webm"@ || essence == "video/webm"@ {
        Some("webm"@)
    } else if essence == "audio/ogg"@ {
        Some("ogg"@)
    } else if essence == "audio/flac"@ {
        Some("flac"@)
    } else if essence == "audio/wav"@ {
        Some("wav"@)
    } else {
        None
    }
}

/// The extension for a content type, whatever its parameters are.
pub fn extension_from_mime(mime: &str) -> (extension: Option<&'static str>)
    ensures
        match extension {
            Some(text) => mime_extension(mime@) == Some(text@),
            None => mime_extension(mime@) is None,
        },
{
    let essence = trim(before(mime, ';'));
    if same(essence, "audio/mp4") || same(essence, "video/mp4") {
        Some("mp4")
    } else if same(essence, "audio/mpeg") {
        Some("mp3")
    } else if same(essence, "audio/webm") || same(essence, "video/webm") {
        Some("webm")
    } else if same(essence, "audio/ogg") {
        Some("ogg")
    } else if same(essence, "audio/flac") {
        Some("flac")
    } else if same(essence, "audio/wav") {
        Some("wav")
    } else {
        None
    }
}

/// Whether a path names something on the web.
pub open spec fn web_address(path: Seq<char>) -> bool {
    "http://"@.is_prefix_of(path) || "https://"@.is_prefix_of(path)
}

/// Whether a path has to be fetched rather than opened.
pub fn is_url(path: &str) -> (url: bool)
    ensures
        url == web_address(path@),
{
    starts_with(path, "http://") || starts_with(path, "https://")
}

/// What follows the last slash of a path.
pub open spec fn after_last_slash(path: Seq<char>) -> Seq<char>
    decreases path.len(),
{
    if path.len() == 0 || path.last() == '/' {
        Seq::empty()
    } else {
        after_last_slash(path.drop_last()).push(path.last())
    }
}

/// The name of the file that a path leads to. Slashes and single dots at the
/// end lead nowhere further, and two dots name no file.
pub open spec fn file_name(path: Seq<char>) -> Option<Seq<char>>
    decreases path.len(),
{
    let name = after_last_slash(path);
    if path.len() == 0 {
        None
    } else if path.last() == '/' || name == seq!['.'] {
        file_name(path.drop_last())
    } else if name == seq!['.', '.'] {
        None
    } else {
        Some(name)
    }
}

/// What follows the last dot of a name, unless the name has no dot but at its
/// start.
pub open spec fn name_extension(name: Seq<char>) -> Option<Seq<char>>
    decreases name.len(),
{
    if name.len() <= 1 {
        None
    } else if name.last() == '.' {
        Some(Seq::empty())
    } else {
        match name_extension(name.drop_last()) {
            Some(extension) => Some(extension.push(name.last())),
            None => None,
        }
    }
}

/// The extension of the file that a path leads to.
pub open spec fn path_extension(path: Seq<char>) -> Option<Seq<char>> {
    match file_name(path) {
        Some(name) => name_extension(name),
        None => None,
    }
}

/// Whether a path is split alike on every system: it has no backslash, no
/// colon where a drive letter would have one, and does not start with two
/// slashes.
pub open spec fn portable(path: Seq<char>) -> bool {
    &&& !path.contains('\\')
    &&& !(path.len() >= 1 && path[0] == ':')
    &&& !(path.len() >= 2 && path[1] == ':')
    &&& !starts_with_two_separators(path)
}

/// Whether a character separates the parts of a path on some system.
pub open spec fn is_separator(c: char) -> bool {
    c == '/' || c == '\\' || c == ':'
}

/// Whether a path may start with the name of a server or of a device.
pub open spec fn starts_with_two_separators(path: Seq<char>) -> bool {
    &&& path.len() >= 2
    &&& path[0] == '/' || path[0] == '\\'
    &&& path[1] == '/' || path[1] == '\\'
}

/// What follows the last separator of a path.
pub open spec fn last_part(path: Seq<char>) -> Seq<char>
    decreases path.len(),
{
    if path.len() == 0 || is_separator(path.last()) {
        Seq::empty()
    } else {
        last_part(path.drop_last()).push(path.last())
    }
}

/// Whether the name at the end of a path shows its extension on every system:
/// it has a dot that is not its first character, and is not two dots.
pub open spec fn plain_extension(path: Seq<char>) -> bool {
    let name = last_part(path);
    &&& !starts_with_two_separators(path)
    &&& name_extension(name) is Some
    &&& name != seq!['.', '.']
}

/// Whether this can be the extension that the system sees in a path. Portable
/// paths leave no choice, nor do paths that end in a name with a plain
/// extension. On others systems differ, but no extension holds a dot and none
/// comes from a path without one.
pub open spec fn extension_of(path: Seq<char>, extension: Option<Seq<char>>) -> bool {
    &&& portable(path) ==> extension == path_extension(path)
    &&& plain_extension(path) ==> extension == name_extension(last_part(path))
    &&& !path.contains('.') ==> extension is None
    &&& extension matches Some(text) ==> !text.contains('.')
}

/// `std::path::Path::extension`: the extension of the file that a path leads
/// to, by the rules of the system.
#[verifier::external_body]
fn system_extension(path: &str) -> (extension: Option<String>)
    ensures
        extension_of(path@, extension.deep_view()),
{
    std::path::Path::new(path).extension().and_then(|e| e.to_str()).map(String::from)
}

/// The path segments of a URL, percent-encoded, or nothing if the text is no
/// URL or its URL has no path to split.
pub uninterp spec fn url_path_segments(url: Seq<char>) -> Option<Seq<Seq<char>>>;

/// `reqwest::Url::parse` and then `path_segments`: what they say of a URL,
/// under its own name. A URL that has segments has at least one.
#[verifier::external_body]
fn parse_path_segments(url: &str) -> (segments: Option<Vec<String>>)
    ensures
        segments.deep_view() == url_path_segments(url@),
        segments matches Some(list) ==> list@.len() > 0,
{
    let url = reqwest::Url::parse(url).ok()?;
    Some(url.path_segments()?.map(String::from).collect())
}

/// What is known of a media source before looking into it.
#[derive(Debug)]
pub struct ProbeHint {
    /// The extension of the format that is likely.
    pub extension: Option<String>,
}

/// The content type decides where it is known; otherwise the location does.
pub fn choose_hint(
    from_content_type: Option<&'static str>,
    from_location: Option<String>,
) -> (hint: ProbeHint)
    ensures
        hint.extension.deep_view() == match from_content_type {
            Some(text) => Some(text@),
            None => from_location.deep_view(),
        },
{
    match from_content_type {
        Some(text) => ProbeHint { extension: Some(text.to_owned()) },
        None => ProbeHint { extension: from_location },
    }
}

/// The extension of the last path segment of a URL, if it has segments.
pub fn segments_extension(segments: Option<Vec<String>>) -> (extension: Option<String>)
    requires
        segments matches Some(list) ==> list@.len() > 0,
    ensures
        match segments {
            Some(list) => extension_of(list.deep_view().last(), extension.deep_view()),
            None => extension is None,
        },
{
    match segments {
        Some(list) => {
            let last: usize = list.len() - 1;
            assert(list.deep_view().last() == list@[last as int]@);
            system_extension(list[last].as_str())
        },
        None => None,
    }
}

/// The extension that a location shows: that of a file, or that of the last
/// path segment of a URL.
fn location_extension(path: &str, is_url: bool) -> (extension: Option<String>)
    ensures
        ({
            let seen = extension.deep_view();
            if is_url {
                match url_path_segments(path@) {
                    Some(segments) => extension_of(segments.last(), seen),
                    None => seen is None,
                }
            } else {
                extension_of(path@, seen)
            }
        }),
{
    if !is_url {
        return system_extension(path);
    }
    segments_extension(parse_path_segments(path))
}

/// Guess the format of the media at `path`, which came with `content_type` if
/// it was fetched.
pub fn build_probe_hint(path: &str, is_url: bool, content_type: Option<&str>) -> (hint: ProbeHint)
    ensures
        ({
            let seen = hint.extension.deep_view();
            let declared = match content_type {
                Some(mime) => mime_extension(mime@),
                None => None,
            };
            if declared is Some {
                seen == declared
            } else if is_url {
                match url_path_segments(path@) {
                    Some(segments) => extension_of(segments.last(), seen),
                    None => seen is None,
                }
            } else {
                extension_of(path@, seen)
            }
        }),
{
    let declared = match content_type {
        Some(mime) => extension_from_mime(mime),
        None => None,
    };
    if declared.is_some() {
        return choose_hint(declared, None);
    }
    choose_hint(None, location_extension(path, is_url))
}

/// Parameters of a content type do not matter.
pub proof fn law_parameters_do_not_matter(mime: Seq<char>, parameters: Seq<char>)
    ensures
        mime_extension(mime + seq![';'] + parameters) == mime_extension(mime),
{
    lemma_up_to_ignores_the_rest(mime, ';', parameters);
}

/// White space around a content type does not matter.
pub proof fn law_white_space_does_not_matter(left: Seq<char>, mime: Seq<char>, right: Seq<char>)
    requires
        is_blank(left),
        is_blank(right),
    ensures
        mime_extension(left + mime + right) == mime_extension(mime),
{
    let essence = up_to(mime, ';');
    let none = Seq::<char>::empty();
    assert(!left.contains(';'));
    assert(!right.contains(';'));
    assert(left + mime + right =~= left + (mime + right));
    lemma_up_to_keeps_the_start(left, mime + right, ';');
    lemma_up_to_has_no_end(mime, ';');
    if mime.contains(';') {
        assert(up_to(mime + right, ';') == essence);
        assert(left + essence + none =~= left + essence);
        lemma_trimmed_ignores_blanks(left, essence, none);
    } else {
        lemma_up_to_keeps_the_start(mime, right, ';');
        lemma_up_to_has_no_end(right, ';');
        assert(left + (essence + right) =~= left + essence + right);
        lemma_trimmed_ignores_blanks(left, essence, right);
    }
}

/// Where a path is portable and ends in a name with a plain extension, both
/// ways to see the extension agree.
pub proof fn law_portable_extensions_are_plain(path: Seq<char>)
    requires
        portable(path),
        plain_extension(path),
    ensures
        path_extension(path) == name_extension(last_part(path)),
{
    let name = after_last_slash(path);
    let part = last_part(path);
    lemma_last_part_ends_the_name(path);
    let start = name.take(name.len() - part.len());
    assert(name =~= start + part);
    lemma_extension_of_the_end(start, part);
    if name == seq!['.', '.'] {
        assert(part.len() == 2);
        assert(part =~= name);
    }
}

/// The last part of a path without backslashes ends the name of the file.
proof fn lemma_last_part_ends_the_name(path: Seq<char>)
    requires
        !path.contains('\\'),
    ensures
        last_part(path).len() <= after_last_slash(path).len(),
        last_part(path) == after_last_slash(path).skip(
            after_last_slash(path).len() - last_part(path).len(),
        ),
    decreases path.len(),
{
    if path.len() > 0 && !is_separator(path.last()) {
        let before = path.drop_last();
        assert(!before.contains('\\')) by {
            if before.contains('\\') {
                let i = choose|i: int| 0 <= i < before.len() && before[i] == '\\';
                assert(path[i] == '\\');
            }
        }
        lemma_last_part_ends_the_name(before);
        let name = after_last_slash(path);
        let part = last_part(path);
        assert(part =~= name.skip(name.len() - part.len()));
    } else {
        let name = after_last_slash(path);
        assert(last_part(path) =~= name.skip(name.len() as int));
    }
}

/// A name has the extension that its end has.
proof fn lemma_extension_of_the_end(start: Seq<char>, end: Seq<char>)
    requires
        name_extension(end) is Some,
    ensures
        name_extension(start + end) == name_extension(end),
    decreases end.len(),
{
    let name = start + end;
    if end.last() != '.' {
        assert(name.drop_last() =~= start + end.drop_last());
        lemma_extension_of_the_end(start, end.drop_last());
    }
}

/// Content types stand for these extensions, whatever white space and parameters
/// are around them, and no other content type stands for any.
pub proof fn law_content_types_stand_for_extensions(mime: Seq<char>)
    ensures
        ({
            let essence = trimmed(up_to(mime, ';'));
            let extension = mime_extension(mime);
            &&& essence == "audio/mp4"@ || essence == "video/mp4"@ ==> extension == Some("mp4"@)
            &&& essence == "audio/mpeg"@ ==> extension == Some("mp3"@)
            &&& essence == "audio/webm"@ || essence == "video/webm"@ ==> extension == Some(
                "webm"@,
            )
            &&& essence == "audio/ogg"@ ==> extension == Some("ogg"@)
            &&& essence == "audio/flac"@ ==> extension == Some("flac"@)
            &&& essence == "audio/wav"@ ==> extension == Some("wav"@)
            &&& extension is Some ==> essence == "audio/mp4"@ || essence == "video/mp4"@
                || essence == "audio/mpeg"@ || essence == "audio/webm"@ || essence
                == "video/webm"@ || essence == "audio/ogg"@ || essence == "audio/flac"@ || essence
                == "audio/wav"@
        }),
{
    reveal_strlit("audio/mp4");
    reveal_strlit("video/mp4");
    reveal_strlit("audio/mpeg");
    reveal_strlit("audio/webm");
    reveal_strlit("video/webm");
    reveal_strlit("audio/ogg");
    reveal_strlit("audio/flac");
    reveal_strlit("audio/wav");
    let nine = seq!["audio/mp4"@, "video/mp4"@, "audio/ogg"@, "audio/wav"@];
    let ten = seq!["audio/mpeg"@, "audio/webm"@, "video/webm"@, "audio/flac"@];
    assert forall|i: int| 0 <= i < 4 implies (#[trigger] nine[i]).len() == 9 by {}
    assert forall|i: int| 0 <= i < 4 implies (#[trigger] ten[i]).len() == 10 by {}
    assert(nine[0][0] == 'a' && nine[1][0] == 'v' && nine[2][0] == 'a' && nine[3][0] == 'a');
    assert(nine[0][6] == 'm' && nine[2][6] == 'o' && nine[3][6] == 'w');
    assert(ten[0][0] == 'a' && ten[1][0] == 'a' && ten[2][0] == 'v' && ten[3][0] == 'a');
    assert(ten[0][6] == 'm' && ten[1][6] == 'w' && ten[3][6] == 'f');
}

/// What has to be fetched is what starts with one of two schemes, whatever
/// follows them.
pub proof fn law_schemes_make_web_addresses(path: Seq<char>, rest: Seq<char>)
    ensures
        web_address("http://"@ + rest),
        web_address("https://"@ + rest),
        web_address(path) ==> exists|end: Seq<char>|
            path == #[trigger] ("http://"@ + end) || path == "https://"@ + end,
{
    let plain = "http://"@;
    let secure = "https://"@;
    assert(plain =~= (plain + rest).take(plain.len() as int));
    assert(secure =~= (secure + rest).take(secure.len() as int));
    if web_address(path) {
        if plain.is_prefix_of(path) {
            let end = path.skip(plain.len() as int);
            assert(path =~= plain + end);
        } else {
            let end = path.skip(secure.len() as int);
            assert(path =~= secure + end);
            assert((plain + end).len() >= 0);
        }
    }
}

proof fn lemma_name_follows_the_slash(start: Seq<char>, name: Seq<char>)
    requires
        !name.contains('/'),
        start.len() == 0 || start.last() == '/',
    ensures
        after_last_slash(start + name) == name,
    decreases name.len(),
{
    let path = start + name;
    if name.len() > 0 {
        let shorter = name.drop_last();
        assert(!shorter.contains('/')) by {
            if shorter.contains('/') {
                let i = choose|i: int| 0 <= i < shorter.len() && shorter[i] == '/';
                assert(name[i] == '/');
            }
        }
        assert(name[name.len() - 1] != '/');
        assert(path.drop_last() =~= start + shorter);
        lemma_name_follows_the_slash(start, shorter);
        assert(after_last_slash(path) =~= name);
    } else {
        assert(path =~= start);
        assert(after_last_slash(path) =~= name);
    }
}

proof fn lemma_extension_of_a_plain_name(stem: Seq<char>, extension: Seq<char>)
    requires
        stem.len() > 0,
        !extension.contains('.'),
    ensures
        name_extension(stem.push('.') + extension) == Some(extension),
    decreases extension.len(),
{
    let name = stem.push('.') + extension;
    if extension.len() == 0 {
        assert(name =~= stem.push('.'));
        assert(extension =~= Seq::empty());
    } else {
        let shorter = extension.drop_last();
        assert(!shorter.contains('.')) by {
            if shorter.contains('.') {
                let i = choose|i: int| 0 <= i < shorter.len() && shorter[i] == '.';
                assert(extension[i] == '.');
            }
        }
        assert(extension[extension.len() - 1] != '.');
        assert(name.drop_last() =~= stem.push('.') + shorter);
        lemma_extension_of_a_plain_name(stem, shorter);
        assert(shorter.push(extension.last()) =~= extension);
    }
}

/// The extension of a file is what follows the last dot of its name, unless the
/// name starts with that dot. The directories before it do not matter, whatever
/// dots they hold.
pub proof fn law_extension_follows_the_last_dot(
    start: Seq<char>,
    stem: Seq<char>,
    extension: Seq<char>,
)
    requires
        start.len() == 0 || start.last() == '/',
        stem.len() > 0,
        !stem.contains('/'),
        !extension.contains('/'),
        !extension.contains('.'),
        !(stem == seq!['.'] && extension.len() == 0),
    ensures
        path_extension(start + (stem.push('.') + extension)) == Some(extension),
{
    let name = stem.push('.') + extension;
    let path = start + name;
    assert(!name.contains('/')) by {
        if name.contains('/') {
            let i = choose|i: int| 0 <= i < name.len() && name[i] == '/';
            if i < stem.len() {
                assert(stem[i] == '/');
            } else if i > stem.len() {
                assert(extension[i - stem.len() - 1] == '/');
            }
        }
    }
    lemma_name_follows_the_slash(start, name);
    lemma_extension_of_a_plain_name(stem, extension);
    assert(name.len() >= 2);
    assert(path.last() == name.last());
    assert(name[name.len() - 1] != '/');
    if name == seq!['.', '.'] {
        assert(stem =~= seq!['.']);
    }
    assert(file_name(path) == Some(name));
}

/// A name without a dot, or with none but at its start, has no extension.
pub proof fn law_hidden_and_plain_names_have_none(start: Seq<char>, name: Seq<char>)
    requires
        start.len() == 0 || start.last() == '/',
        name.len() > 1,
        !name.contains('/'),
        forall|i: int| 0 < i < name.len() ==> #[trigger] name[i] != '.',
    ensures
        path_extension(start + name) is None,
{
    let path = start + name;
    lemma_name_follows_the_slash(start, name);
    assert(path.last() == name.last());
    assert(name[name.len() - 1] != '/');
    assert(name[1] != '.');
    assert(file_name(path) == Some(name));
    lemma_no_later_dot(name);
}

proof fn lemma_no_later_dot(name: Seq<char>)
    requires
        forall|i: int| 0 < i < name.len() ==> #[trigger] name[i] != '.',
    ensures
        name_extension(name) is None,
    decreases name.len(),
{
    if name.len() > 1 {
        assert(name[name.len() - 1] != '.');
        let shorter = name.drop_last();
        assert forall|i: int| 0 < i < shorter.len() implies #[trigger] shorter[i] != '.' by {
            assert(name[i] != '.');
        }
        lemma_no_later_dot(shorter);
    }
}

/// Slashes, and single dots after one, at the end of a path do not matter.
pub proof fn law_trailing_slashes_do_not_matter(path: Seq<char>)
    ensures
        path_extension(path.push('/')) == path_extension(path),
        path_extension(path.push('/').push('.')) == path_extension(path),
{
    let slashed = path.push('/');
    let dotted = slashed.push('.');
    assert(slashed.drop_last() =~= path);
    assert(dotted.drop_last() =~= slashed);
    assert(after_last_slash(slashed) =~= Seq::empty());
    assert(after_last_slash(dotted) =~= seq!['.']);
}

} // verus!
