use vstd::prelude::*;
use crate::text::{owned_string, 
    append_chars, ascii_lower, ascii_lower_seq, chars_of, contains_chars, copy_range, decimal,
    decimal_chars, find, find_chars, occurs_at, is_ascii_alnum, is_ascii_alphanumeric, join_chars, join_with,
    keep_non_empty, lemma_decimal_digits, lemma_decimal_injective, lemma_find_from_bounds, lemma_rfind_char, lower_ascii_chars, non_empty_parts,
    replace_char, replace_char_in, rfind_char, rfind_char_in, split_chars, split_on,
    string_from_chars, to_ascii_lower, trim_char, trim_char_in, trim_start_char, trim_end_char,
};

verus! {

// ---------------------------------------------------------------------
// std functions whose contracts are taken on trust
// ---------------------------------------------------------------------

/// The uppercase mapping of a character (`char::to_uppercase`), which may be
/// more than one character long.
pub uninterp spec fn char_uppercase(c: char) -> Seq<char>;

/// Calls `char::to_uppercase` and collects the characters it yields. The
/// contract claims only that the result is the (named) uppercase mapping of `c`.
#[verifier::external_body]
pub(crate) fn uppercase_of(c: char) -> (r: String)
    ensures
        r@ == char_uppercase(c),
{
    c.to_uppercase().collect()
}

/// Whether the path has no separator or prefix character, so that it is a single
/// plain component on every platform.
pub open spec fn is_plain_name(s: Seq<char>) -> bool {
    &&& s.len() > 0
    &&& s != "."@
    &&& s != ".."@
    &&& !s.contains('/')
    &&& !s.contains('\\')
    &&& !s.contains(':')
}

/// The part of `path` after its last `/`, or all of it when it has none.
pub open spec fn last_part(path: Seq<char>) -> Seq<char> {
    match rfind_char(path, '/') {
        Some(i) => path.skip(i + 1),
        None => path,
    }
}

/// A path that every platform splits alike: it does not start with `//` and holds
/// no backslash and no `:`, so it has no prefix and `/` is its only separator, and
/// its last part is a plain name.
pub open spec fn is_portable_path(path: Seq<char>) -> bool {
    &&& !(path.len() >= 2 && path[0] == '/' && path[1] == '/')
    &&& !path.contains('\\')
    &&& !path.contains(':')
    &&& is_plain_name(last_part(path))
}

/// Whether `path` starts with `\\?\`, the verbatim prefix of Windows paths.
pub open spec fn is_verbatim(path: Seq<char>) -> bool {
    path.len() >= 4 && path[0] == '\\' && path[1] == '\\' && path[2] == '?' && path[3] == '\\'
}

/// Calls `Path::file_name` on `path` and converts the name to a `String`.
/// The contract claims what holds on every platform: a name that comes back is
/// neither empty, `.` nor `..`, and a portable path's file name is its last part.
/// Which part of other paths comes back (their separators and prefixes differ
/// between platforms) is left unsaid.
#[verifier::external_body]
pub(crate) fn path_file_name(path: &str) -> (r: Option<String>)
    ensures
        r matches Some(n) ==> n@.len() > 0 && n@ != "."@ && n@ != ".."@,
        is_portable_path(path@) ==> (r is Some && r->0@ == last_part(path@)),
{
    std::path::Path::new(path).file_name().and_then(|name| name.to_str()).map(|name| name.to_string())
}

/// Calls `Path::join` on a directory and a plain file name and displays the
/// result. The contract claims that, unless the directory is a verbatim Windows
/// path, the name is appended to the directory either directly or after one
/// separator (`/` or a backslash, by platform); which of these comes back is left
/// unsaid. A verbatim directory is rebuilt from its components (dropping `.` and
/// `..` and doubled separators), which is left unsaid too.
#[verifier::external_body]
pub(crate) fn path_join(dir: &str, name: &str) -> (r: String)
    requires
        is_plain_name(name@),
    ensures
        !is_verbatim(dir@) ==> is_joined(dir@, name@, r@),
{
    std::path::Path::new(dir).join(name).display().to_string()
}

// ---------------------------------------------------------------------
// Specification of clip naming
// ---------------------------------------------------------------------

/// `Path::extension` of a file name: the part after the final `.`, unless there is
/// no `.` or the only `.` starts the name.
pub open spec fn extension_of(name: Seq<char>) -> Option<Seq<char>> {
    match rfind_char(name, '.') {
        Some(i) => if i == 0 {
            None
        } else {
            Some(name.skip(i + 1))
        },
        None => None,
    }
}

/// `Path::file_stem` of a file name: the name without its extension and final `.`.
pub open spec fn stem_of(name: Seq<char>) -> Seq<char> {
    match rfind_char(name, '.') {
        Some(i) => if i == 0 {
            name
        } else {
            name.take(i)
        },
        None => name,
    }
}

/// Whether an extension names a supported clip format (`mp3` or `wav`, any case).
pub open spec fn is_supported_extension(ext: Seq<char>) -> bool {
    ascii_lower_seq(ext) == "mp3"@ || ascii_lower_seq(ext) == "wav"@
}

/// Whether a file name is that of a supported clip file.
pub open spec fn is_supported_file_name(name: Option<Seq<char>>) -> bool {
    match name {
        Some(n) => match extension_of(n) {
            Some(e) => is_supported_extension(e),
            None => false,
        },
        None => false,
    }
}

/// The clip id stored in a file stem: the part before the first `__`, or the whole stem.
pub open spec fn clip_id_of_stem(stem: Seq<char>) -> Seq<char> {
    match find(stem, "__"@) {
        Some(i) => stem.take(i),
        None => stem,
    }
}

/// A word with its first character in upper case.
pub open spec fn capitalized(word: Seq<char>) -> Seq<char> {
    if word.len() == 0 {
        word
    } else {
        char_uppercase(word[0]) + word.drop_first()
    }
}

/// An id without its final `-timestamp` part.
pub open spec fn without_timestamp(id: Seq<char>) -> Seq<char> {
    match rfind_char(id, '-') {
        Some(i) => id.take(i),
        None => id,
    }
}

/// The display name of a clip id: the words between dashes, before the timestamp,
/// capitalized and separated by spaces.
pub open spec fn display_name_of_id(id: Seq<char>) -> Seq<char> {
    join_with(
        non_empty_parts(split_on(without_timestamp(id), '-')).map_values(|w: Seq<char>| capitalized(w)),
        " "@,
    )
}

/// The display name of a stored file stem: after a `__` the given name with dashes
/// as spaces, else the display name of the id.
pub open spec fn display_name_of_stem(stem: Seq<char>) -> Seq<char> {
    match find(stem, "__"@) {
        Some(i) => replace_char(stem.skip(i + 2), '-', " "@),
        None => display_name_of_id(stem),
    }
}

/// A character of a clip slug: ASCII letters and digits in lower case, all else `-`.
pub open spec fn slug_char(c: char) -> char {
    if is_ascii_alnum(c) {
        ascii_lower(c)
    } else {
        '-'
    }
}

/// The slug of a clip name, without leading or trailing dashes; `clip` if empty.
pub open spec fn slug_of(name: Seq<char>) -> Seq<char> {
    let slug = trim_char(name.map_values(|c: char| slug_char(c)), '-');
    if slug.len() == 0 {
        "clip"@
    } else {
        slug
    }
}

/// The id of a clip imported under `name` at `timestamp` (milliseconds since the epoch).
pub open spec fn clip_id_for(name: Seq<char>, timestamp: nat) -> Seq<char> {
    slug_of(name) + "-"@ + decimal(timestamp)
}

// ---------------------------------------------------------------------
// Executable naming functions
// ---------------------------------------------------------------------

/// The clip id stored in a file stem (`stem` up to its first `__`).
pub fn clip_id_from_stem(stem: &str) -> (r: String)
    ensures
        r@ == clip_id_of_stem(stem@),
{
    proof {
        reveal_strlit("__");
    }
    let cs = chars_of(stem);
    let pat = chars_of("__");
    match find_chars(cs.as_slice(), pat.as_slice()) {
        Some(i) => {
            proof {
                lemma_find_from_bounds(stem@, "__"@, 0);
            }
            let head = copy_range(cs.as_slice(), 0, i);
            assert(head@ =~= stem@.take(i as int));
            string_from_chars(head.as_slice())
        },
        None => string_from_chars(cs.as_slice()),
    }
}

fn capitalize(word: &Vec<char>) -> (r: Vec<char>)
    ensures
        r@ == capitalized(word@),
{
    if word.len() == 0 {
        return Vec::new();
    }
    let upper = uppercase_of(word[0]);
    let mut r = chars_of(upper.as_str());
    let rest = copy_range(word.as_slice(), 1, word.len());
    append_chars(&mut r, rest.as_slice());
    assert(rest@ =~= word@.drop_first());
    r
}

fn capitalize_all(words: &Vec<Vec<char>>) -> (r: Vec<Vec<char>>)
    ensures
        r.deep_view() == words.deep_view().map_values(|w: Seq<char>| capitalized(w)),
{
    let mut r: Vec<Vec<char>> = Vec::new();
    let mut i: usize = 0;
    while i < words.len()
        invariant
            i <= words@.len(),
            r.deep_view() == words.deep_view().take(i as int).map_values(|w: Seq<char>| capitalized(w)),
        decreases words@.len() - i,
    {
        let ghost before = r.deep_view();
        let word = capitalize(&words[i]);
        assert(words@[i as int]@ == words.deep_view()[i as int]);
        r.push(word);
        assert(word.deep_view() =~= word@);
        assert(r.deep_view() =~= before.push(word@));
        i = i + 1;
        assert(words.deep_view().take(i as int).map_values(|w: Seq<char>| capitalized(w)) =~= before.push(
            capitalized(words.deep_view()[i - 1]),
        ));
    }
    assert(words.deep_view().take(words@.len() as int) =~= words.deep_view());
    r
}

fn display_name_chars(id: &[char]) -> (r: Vec<char>)
    ensures
        r@ == display_name_of_id(id@),
{
    proof {
        reveal_strlit(" ");
    }
    let base = match rfind_char_in(id, '-') {
        Some(i) => {
            proof {
                lemma_rfind_char(id@, '-');
            }
            copy_range(id, 0, i)
        },
        None => copy_range(id, 0, id.len()),
    };
    assert(base@ =~= without_timestamp(id@));
    let parts = split_chars(base.as_slice(), '-');
    let words = keep_non_empty(&parts);
    let caps = capitalize_all(&words);
    let sep = chars_of(" ");
    join_chars(&caps, sep.as_slice())
}

/// The display name of a clip id: `"my-clip-17"` shows as `"My Clip"`.
pub fn display_name_from_id(id: &str) -> (r: String)
    ensures
        r@ == display_name_of_id(id@),
{
    let cs = chars_of(id);
    let name = display_name_chars(cs.as_slice());
    string_from_chars(name.as_slice())
}

/// The display name of a stored clip file stem.
pub fn display_name_from_stem(stem: &str) -> (r: String)
    ensures
        r@ == display_name_of_stem(stem@),
{
    proof {
        reveal_strlit("__");
        reveal_strlit(" ");
    }
    let cs = chars_of(stem);
    let pat = chars_of("__");
    match find_chars(cs.as_slice(), pat.as_slice()) {
        Some(i) => {
            proof {
                lemma_find_from_bounds(stem@, "__"@, 0);
                assert("__"@.len() == 2);
                assert(find(stem@, "__"@) == Some(i as int));
                assert(occurs_at(stem@, "__"@, i as int));
                assert(i + 2 <= cs@.len());
                assert(cs@.len() == cs.len());
            }
            let rest = copy_range(cs.as_slice(), i + 2, cs.len());
            assert(rest@ =~= stem@.skip(i + 2));
            let space = chars_of(" ");
            let shown = replace_char_in(rest.as_slice(), '-', space.as_slice());
            string_from_chars(shown.as_slice())
        },
        None => {
            let name = display_name_chars(cs.as_slice());
            string_from_chars(name.as_slice())
        },
    }
}

/// The id under which a clip named `name` is stored when imported at `timestamp`
/// milliseconds since the epoch: its slug, a dash and the timestamp.
pub fn create_clip_id(name: &str, timestamp: u128) -> (r: String)
    ensures
        r@ == clip_id_for(name@, timestamp as nat),
{
    proof {
        reveal_strlit("clip");
        reveal_strlit("-");
    }
    let cs = chars_of(name);
    let mut mapped: Vec<char> = Vec::new();
    let mut i: usize = 0;
    while i < cs.len()
        invariant
            cs@ == name@,
            i <= cs@.len(),
            mapped@ == cs@.take(i as int).map_values(|c: char| slug_char(c)),
        decreases cs@.len() - i,
    {
        let c = cs[i];
        let s = if is_ascii_alphanumeric(c) {
            to_ascii_lower(c)
        } else {
            '-'
        };
        mapped.push(s);
        i = i + 1;
        assert(cs@.take(i as int).map_values(|c: char| slug_char(c)) =~= cs@.take(i - 1 as int).map_values(
            |c: char| slug_char(c),
        ).push(slug_char(c)));
    }
    assert(cs@.take(cs@.len() as int) =~= cs@);
    let trimmed = trim_char_in(mapped.as_slice(), '-');
    let mut id = if trimmed.len() == 0 {
        chars_of("clip")
    } else {
        trimmed
    };
    let dash = chars_of("-");
    append_chars(&mut id, dash.as_slice());
    let digits = decimal_chars(timestamp);
    append_chars(&mut id, digits.as_slice());
    string_from_chars(id.as_slice())
}

/// Whether an output device name is that of the VB-Cable playback device: it holds
/// `cable input` in any ASCII case.
pub fn is_vb_cable_playback_name(name: &str) -> (r: bool)
    ensures
        r == (find(ascii_lower_seq(name@), "cable input"@) is Some),
{
    let cs = chars_of(name);
    let lower = lower_ascii_chars(cs.as_slice());
    let pat = chars_of("cable input");
    contains_chars(lower.as_slice(), pat.as_slice())
}

// ---------------------------------------------------------------------
// Clip records
// ---------------------------------------------------------------------

/// What the front end is told about an imported clip.
pub struct ClipRecord {
    pub id: String,
    pub name: String,
    pub file_name: String,
    pub format: String,
    pub path: String,
}

/// The text of a clip record.
pub struct ClipRecordView {
    pub id: Seq<char>,
    pub name: Seq<char>,
    pub file_name: Seq<char>,
    pub format: Seq<char>,
    pub path: Seq<char>,
}

impl View for ClipRecord {
    type V = ClipRecordView;

    open spec fn view(&self) -> ClipRecordView {
        ClipRecordView {
            id: self.id@,
            name: self.name@,
            file_name: self.file_name@,
            format: self.format@,
            path: self.path@,
        }
    }
}

/// What `Path::file_name` may give back for `path`, on any platform: for a
/// portable path, its last part.
pub open spec fn file_name_facts(path: Seq<char>, name: Option<Seq<char>>) -> bool {
    &&& name matches Some(n) ==> n.len() > 0 && n != "."@ && n != ".."@
    &&& is_portable_path(path) ==> name == Some(last_part(path))
}

/// The record of a stored clip file at `path` whose file name is `name`, or why
/// there is none.
pub open spec fn clip_record_of(path: Seq<char>, name: Option<Seq<char>>) -> Result<ClipRecordView, Seq<char>> {
    match name {
        None => Err("Clip file has no valid id"@),
        Some(n) => match extension_of(n) {
            None => Err("Clip file has no extension"@),
            Some(e) => Ok(
                ClipRecordView {
                    id: clip_id_of_stem(stem_of(n)),
                    name: display_name_of_stem(stem_of(n)),
                    file_name: n,
                    format: ascii_lower_seq(e),
                    path: path,
                },
            ),
        },
    }
}

/// The view of a record result.
pub open spec fn record_result_view(r: Result<ClipRecord, String>) -> Result<ClipRecordView, Seq<char>> {
    match r {
        Ok(c) => Ok(c@),
        Err(e) => Err(e@),
    }
}

/// The extension and the stem of a file name.
fn split_extension(name: &str) -> (r: (Option<Vec<char>>, Vec<char>))
    ensures
        r.0 matches Some(e) ==> extension_of(name@) == Some(e@),
        r.0 is None ==> extension_of(name@) is None,
        r.1@ == stem_of(name@),
{
    let cs = chars_of(name);
    match rfind_char_in(cs.as_slice(), '.') {
        Some(i) => {
            proof {
                lemma_rfind_char(name@, '.');
            }
            if i == 0 {
                (None, cs)
            } else {
                let ext = copy_range(cs.as_slice(), i + 1, cs.len());
                let stem = copy_range(cs.as_slice(), 0, i);
                assert(ext@ =~= name@.skip(i + 1));
                assert(stem@ =~= name@.take(i as int));
                (Some(ext), stem)
            }
        },
        None => (None, cs),
    }
}

/// The record of a stored clip file at `path` whose file name is `file_name`.
pub fn clip_record_from_file_name(path: &str, file_name: Option<&str>) -> (r: Result<ClipRecord, String>)
    ensures
        record_result_view(r) == clip_record_of(
            path@,
            match file_name {
                Some(n) => Some(n@),
                None => None,
            },
        ),
{
    proof {
        reveal_strlit("Clip file has no valid id");
        reveal_strlit("Clip file has no extension");
    }
    let name = match file_name {
        Some(n) => n,
        None => {
            return Err(owned_string("Clip file has no valid id"));
        },
    };
    let (ext, stem_chars) = split_extension(name);
    let stem = string_from_chars(stem_chars.as_slice());
    let id = clip_id_from_stem(stem.as_str());
    let ext = match ext {
        Some(e) => e,
        None => {
            return Err(owned_string("Clip file has no extension"));
        },
    };
    let format_chars = lower_ascii_chars(ext.as_slice());
    let display = display_name_from_stem(stem.as_str());
    Ok(
        ClipRecord {
            id,
            name: display,
            file_name: owned_string(name),
            format: string_from_chars(format_chars.as_slice()),
            path: owned_string(path),
        },
    )
}

fn ext_is_supported(ext: &Vec<char>) -> (r: bool)
    ensures
        r == is_supported_extension(ext@),
{
    proof {
        reveal_strlit("mp3");
        reveal_strlit("wav");
    }
    let lower = lower_ascii_chars(ext.as_slice());
    let mp3 = chars_of("mp3");
    let wav = chars_of("wav");
    chars_equal(lower.as_slice(), mp3.as_slice()) || chars_equal(lower.as_slice(), wav.as_slice())
}

/// Whether two character sequences are equal.
pub fn chars_equal(a: &[char], b: &[char]) -> (r: bool)
    ensures
        r == (a@ == b@),
{
    if a.len() != b.len() {
        return false;
    }
    let mut i: usize = 0;
    while i < a.len()
        invariant
            a@.len() == b@.len(),
            i <= a@.len(),
            forall|k: int| 0 <= k < i ==> a@[k] == b@[k],
        decreases a@.len() - i,
    {
        if a[i] != b[i] {
            return false;
        }
        i = i + 1;
    }
    assert(a@ =~= b@);
    true
}

/// Whether a file name is that of a supported clip (`.mp3` or `.wav`, any case).
pub fn is_supported_clip_file_name(file_name: Option<&str>) -> (r: bool)
    ensures
        r == is_supported_file_name(
            match file_name {
                Some(n) => Some(n@),
                None => None,
            },
        ),
{
    match file_name {
        Some(n) => {
            let (ext, _) = split_extension(n);
            match ext {
                Some(e) => ext_is_supported(&e),
                None => false,
            }
        },
        None => false,
    }
}

/// The view of an optional string slice.
pub open spec fn opt_str_view(n: Option<&str>) -> Option<Seq<char>> {
    match n {
        Some(s) => Some(s@),
        None => None,
    }
}

/// The view of an optional file name.
pub open spec fn opt_view(n: Option<String>) -> Option<Seq<char>> {
    match n {
        Some(s) => Some(s@),
        None => None,
    }
}

fn opt_str(n: &Option<String>) -> (r: Option<&str>)
    ensures
        match r {
            Some(s) => opt_view(*n) == Some(s@),
            None => n is None,
        },
{
    match n {
        Some(s) => Some(s.as_str()),
        None => None,
    }
}

/// Whether the file at `path` is a supported clip file.
pub fn is_supported_clip_path(path: &str) -> (r: bool)
    ensures
        exists|n: Option<Seq<char>>| file_name_facts(path@, n) && r == is_supported_file_name(n),
{
    let name = path_file_name(path);
    let r = is_supported_clip_file_name(opt_str(&name));
    assert(file_name_facts(path@, opt_view(name)));
    r
}

/// The record of the stored clip file at `path`.
pub fn clip_record_from_path(path: &str) -> (r: Result<ClipRecord, String>)
    ensures
        exists|n: Option<Seq<char>>| file_name_facts(path@, n) && record_result_view(r) == clip_record_of(path@, n),
{
    let name = path_file_name(path);
    let r = clip_record_from_file_name(path, opt_str(&name));
    assert(file_name_facts(path@, opt_view(name)));
    r
}

/// For a file found in the clips directory at `path` whose name is `file_name`
/// (missing when it is not valid text): nothing if it is not a supported clip file,
/// else its record or why it has none.
pub fn persisted_clip_record_for(path: &str, file_name: Option<&str>) -> (r: Option<Result<ClipRecord, String>>)
    ensures
        match r {
            None => !is_supported_file_name(opt_str_view(file_name)),
            Some(rec) => is_supported_file_name(opt_str_view(file_name)) && record_result_view(rec)
                == clip_record_of(path@, opt_str_view(file_name)),
        },
{
    if !is_supported_clip_file_name(file_name) {
        return None;
    }
    Some(clip_record_from_file_name(path, file_name))
}

/// For a file found in the clips directory: nothing if it is not a supported clip
/// file, else its record or why it has none.
pub fn persisted_clip_record(path: &str) -> (r: Option<Result<ClipRecord, String>>)
    ensures
        exists|n: Option<Seq<char>>| file_name_facts(path@, n) && match r {
            None => !is_supported_file_name(n),
            Some(rec) => is_supported_file_name(n) && record_result_view(rec) == clip_record_of(path@, n),
        },
{
    let name = path_file_name(path);
    assert(file_name_facts(path@, opt_view(name)));
    if !is_supported_clip_file_name(opt_str(&name)) {
        return None;
    }
    Some(clip_record_from_file_name(path, opt_str(&name)))
}

/// For a file found in the clips directory whose name is not valid text, with the
/// extension `extension` when that is valid text: nothing if it is not a supported
/// clip file, else the error that it has no valid id.
pub fn unreadable_clip_file(extension: Option<&str>) -> (r: Option<String>)
    ensures
        r is Some <==> (extension matches Some(e) && is_supported_extension(e@)),
        r matches Some(e) ==> e@ == "Clip file has no valid id"@,
{
    match extension {
        Some(e) => {
            let ext = chars_of(e);
            if ext_is_supported(&ext) {
                Some(owned_string("Clip file has no valid id"))
            } else {
                None
            }
        },
        None => None,
    }
}

/// The decoder a clip file is read with.
pub enum AudioFileFormat {
    Wav,
    Mp3,
}

/// The decoder for a file whose extension is `extension` (missing when the path
/// has none that is valid text), chosen by the extension in lower case; or why the
/// file cannot be decoded.
pub open spec fn audio_format_of(extension: Option<Seq<char>>) -> Result<AudioFileFormat, Seq<char>> {
    match extension {
        None => Err("Audio file path has no extension"@),
        Some(e) => if ascii_lower_seq(e) == "wav"@ {
            Ok(AudioFileFormat::Wav)
        } else if ascii_lower_seq(e) == "mp3"@ {
            Ok(AudioFileFormat::Mp3)
        } else {
            Err("Unsupported audio file extension: "@ + ascii_lower_seq(e))
        },
    }
}

/// The view of a decoder choice.
pub open spec fn format_result_view(r: Result<AudioFileFormat, String>) -> Result<AudioFileFormat, Seq<char>> {
    match r {
        Ok(f) => Ok(f),
        Err(e) => Err(e@),
    }
}

/// The decoder for a file whose extension is `extension`.
pub fn audio_file_format(extension: Option<&str>) -> (r: Result<AudioFileFormat, String>)
    ensures
        format_result_view(r) == audio_format_of(opt_str_view(extension)),
{
    proof {
        reveal_strlit("wav");
        reveal_strlit("mp3");
        reveal_strlit("Audio file path has no extension");
        reveal_strlit("Unsupported audio file extension: ");
    }
    let e = match extension {
        Some(e) => e,
        None => {
            return Err(owned_string("Audio file path has no extension"));
        },
    };
    let lower = lower_ascii_chars(chars_of(e).as_slice());
    let wav = chars_of("wav");
    let mp3 = chars_of("mp3");
    if chars_equal(lower.as_slice(), wav.as_slice()) {
        Ok(AudioFileFormat::Wav)
    } else if chars_equal(lower.as_slice(), mp3.as_slice()) {
        Ok(AudioFileFormat::Mp3)
    } else {
        let mut message = chars_of("Unsupported audio file extension: ");
        append_chars(&mut message, lower.as_slice());
        Err(string_from_chars(message.as_slice()))
    }
}

// ---------------------------------------------------------------------
// Importing a clip
// ---------------------------------------------------------------------

/// A character that may appear in a stored clip file name.
pub open spec fn is_stored_name_char(c: char) -> bool {
    is_ascii_alnum(c) || c == '-' || c == '.'
}

/// Every character of `s` may appear in a stored clip file name.
pub open spec fn all_stored_name_chars(s: Seq<char>) -> bool {
    forall|i: int| 0 <= i < s.len() ==> is_stored_name_char(#[trigger] s[i])
}

/// The name, id and format of a clip imported from a file whose stem and extension
/// are `stem` and `extension` (each missing when the path has none readable), at
/// `timestamp`; or why it cannot be imported. A clip without a readable stem is
/// named `Audio Clip`.
pub open spec fn import_parts(
    stem: Option<Seq<char>>,
    extension: Option<Seq<char>>,
    timestamp: nat,
) -> Result<(Seq<char>, Seq<char>, Seq<char>), Seq<char>> {
    match extension {
        None => Err("Audio clip path has no extension"@),
        Some(e) => if !is_supported_extension(e) {
            Err("Only MP3 and WAV clips are supported"@)
        } else {
            let name = match stem {
                Some(s) => s,
                None => "Audio Clip"@,
            };
            Ok((name, clip_id_for(name, timestamp), ascii_lower_seq(e)))
        },
    }
}

/// The name, id and format of a clip imported from a file named `name`.
pub open spec fn import_parts_of(name: Option<Seq<char>>, timestamp: nat) -> Result<(Seq<char>, Seq<char>, Seq<char>), Seq<char>> {
    match name {
        Some(n) => import_parts(Some(stem_of(n)), extension_of(n), timestamp),
        None => import_parts(None, None, timestamp),
    }
}

/// A clip imported from the file `stem.ext` (`ext` without a dot, `stem` not empty,
/// and it may hold dots itself) is named `stem`, gets the id made from `stem` and the
/// import time, and has `ext` in lower case as its format.
pub proof fn lemma_imported_name_is_the_stem(stem: Seq<char>, ext: Seq<char>, timestamp: nat)
    requires
        stem.len() > 0,
        !ext.contains('.'),
        is_supported_extension(ext),
    ensures
        import_parts_of(Some(stem + seq!['.'] + ext), timestamp) == Ok::<(Seq<char>, Seq<char>, Seq<char>), Seq<char>>(
            (stem, clip_id_for(stem, timestamp), ascii_lower_seq(ext)),
        ),
        import_parts_of(Some(stem + seq!['.'] + ext), timestamp)->Ok_0.0 + seq!['.'] + ext == stem + seq!['.'] + ext,
{
    let n = stem + seq!['.'] + ext;
    let dot = stem.len() as int;
    lemma_rfind_char(n, '.');
    assert(n[dot] == '.');
    assert(rfind_char(n, '.') == Some(dot)) by {
        match rfind_char(n, '.') {
            Some(j) => {
                if j > dot {
                    assert(n[j] == ext[j - dot - 1]);
                }
            },
            None => {},
        }
    }
    assert(n.skip(dot + 1) =~= ext);
    assert(n.take(dot) =~= stem);
}

/// The stored file name of a clip with this id and format.
pub open spec fn stored_file_name(id: Seq<char>, format: Seq<char>) -> Seq<char> {
    id + "."@ + format
}

/// Whether `path` is `dir` joined with `name` by `Path::join`.
pub open spec fn is_joined(dir: Seq<char>, name: Seq<char>, path: Seq<char>) -> bool {
    path == dir + name || path == dir + "/"@ + name || path == dir + "\\"@ + name
}

/// Whether `r` is the outcome of importing a file named `name` into `dir` at `timestamp`.
pub open spec fn is_import_outcome(
    name: Option<Seq<char>>,
    dir: Seq<char>,
    timestamp: nat,
    r: Result<ClipRecordView, Seq<char>>,
) -> bool {
    is_import_result(import_parts_of(name, timestamp), dir, r)
}

/// Whether `r` is the record of a clip with the name, id and format `parts` copied
/// into `dir`, or the error `parts` gives.
pub open spec fn is_import_result(
    parts: Result<(Seq<char>, Seq<char>, Seq<char>), Seq<char>>,
    dir: Seq<char>,
    r: Result<ClipRecordView, Seq<char>>,
) -> bool {
    match parts {
        Err(e) => r == Err::<ClipRecordView, Seq<char>>(e),
        Ok((stem, id, format)) => r matches Ok(rec) && rec.id == id && rec.name == stem && rec.format
            == format && rec.file_name == stored_file_name(id, format) && (!is_verbatim(dir) ==> is_joined(
            dir,
            stored_file_name(id, format),
            rec.path,
        )),
    }
}

/// The record a clip gets when the file whose stem and extension are `stem` and
/// `extension` is imported into `clips_dir` at `timestamp` milliseconds since the
/// epoch, or why it cannot be.
pub fn clip_import_record_from_parts(
    stem: Option<&str>,
    extension: Option<&str>,
    clips_dir: &str,
    timestamp: u128,
) -> (r: Result<ClipRecord, String>)
    ensures
        is_import_result(
            import_parts(opt_str_view(stem), opt_str_view(extension), timestamp as nat),
            clips_dir@,
            record_result_view(r),
        ),
{
    proof {
        reveal_strlit("Audio clip path has no extension");
        reveal_strlit("Only MP3 and WAV clips are supported");
        reveal_strlit(".");
        reveal_strlit("mp3");
        reveal_strlit("wav");
        reveal_strlit("clip");
        reveal_strlit("-");
        reveal_strlit("Audio Clip");
    }
    let ext = match extension {
        Some(e) => chars_of(e),
        None => {
            return Err(owned_string("Audio clip path has no extension"));
        },
    };
    if !ext_is_supported(&ext) {
        return Err(owned_string("Only MP3 and WAV clips are supported"));
    }
    let stem = match stem {
        Some(s) => owned_string(s),
        None => owned_string("Audio Clip"),
    };
    let format = lower_ascii_chars(ext.as_slice());
    let id = create_clip_id(stem.as_str(), timestamp);
    let mut file_chars = chars_of(id.as_str());
    let dot = chars_of(".");
    append_chars(&mut file_chars, dot.as_slice());
    append_chars(&mut file_chars, format.as_slice());
    let file_name = string_from_chars(file_chars.as_slice());
    proof {
        lemma_clip_id_chars(stem@, timestamp as nat);
        assert(format@ == "mp3"@ || format@ == "wav"@);
        assert(file_name@ =~= id@ + "."@ + format@);
        assert(all_stored_name_chars(file_name@)) by {
            assert forall|i: int| 0 <= i < file_name@.len() implies is_stored_name_char(#[trigger] file_name@[i]) by {
                if i < id@.len() {
                    assert(file_name@[i] == id@[i]);
                    assert(is_id_char(id@[i]));
                } else if i > id@.len() {
                    assert(file_name@[i] == format@[i - id@.len() - 1]);
                }
            }
        }
        assert(file_name@ =~= stored_file_name(id@, format@));
        assert(!file_name@.contains('/')) by {
            if file_name@.contains('/') {
                let i = choose|i: int| 0 <= i < file_name@.len() && file_name@[i] == '/';
                assert(is_stored_name_char(file_name@[i]));
            }
        }
        assert(!file_name@.contains('\\')) by {
            if file_name@.contains('\\') {
                let i = choose|i: int| 0 <= i < file_name@.len() && file_name@[i] == '\\';
                assert(is_stored_name_char(file_name@[i]));
            }
        }
        assert(!file_name@.contains(':')) by {
            if file_name@.contains(':') {
                let i = choose|i: int| 0 <= i < file_name@.len() && file_name@[i] == ':';
                assert(is_stored_name_char(file_name@[i]));
            }
        }
        assert(file_name@.len() >= 5);
        reveal_strlit("..");
        assert(file_name@ != "."@);
        assert(file_name@ != ".."@);
    }
    let path = path_join(clips_dir, file_name.as_str());
    Ok(ClipRecord { id, name: stem, file_name, format: string_from_chars(format.as_slice()), path })
}

/// The record a clip gets when the file named `source_file_name` is imported into
/// `clips_dir` at `timestamp` milliseconds since the epoch, or why it cannot be.
pub fn clip_import_record(source_file_name: Option<&str>, clips_dir: &str, timestamp: u128) -> (r: Result<ClipRecord, String>)
    ensures
        is_import_outcome(opt_str_view(source_file_name), clips_dir@, timestamp as nat, record_result_view(r)),
{
    match source_file_name {
        Some(n) => {
            let (ext, stem_chars) = split_extension(n);
            let stem = string_from_chars(stem_chars.as_slice());
            match ext {
                Some(e) => {
                    let e = string_from_chars(e.as_slice());
                    clip_import_record_from_parts(Some(stem.as_str()), Some(e.as_str()), clips_dir, timestamp)
                },
                None => clip_import_record_from_parts(Some(stem.as_str()), None, clips_dir, timestamp),
            }
        },
        None => clip_import_record_from_parts(None, None, clips_dir, timestamp),
    }
}

/// The record a clip gets when the file at `source_path` is imported into
/// `clips_dir` at `timestamp`, or why it cannot be.
pub fn clip_import_record_for_path(source_path: &str, clips_dir: &str, timestamp: u128) -> (r: Result<ClipRecord, String>)
    ensures
        exists|n: Option<Seq<char>>| file_name_facts(source_path@, n) && is_import_outcome(
            n,
            clips_dir@,
            timestamp as nat,
            record_result_view(r),
        ),
{
    let name = path_file_name(source_path);
    assert(file_name_facts(source_path@, opt_view(name)));
    clip_import_record(opt_str(&name), clips_dir, timestamp)
}

// ---------------------------------------------------------------------
// Listing clips in name order
// ---------------------------------------------------------------------

/// `a <= b` in the order of `String`: lexicographic by character (UTF-8 byte order
/// is code point order).
pub open spec fn name_le(a: Seq<char>, b: Seq<char>) -> bool
    decreases a.len(),
{
    if a.len() == 0 {
        true
    } else if b.len() == 0 {
        false
    } else if a[0] != b[0] {
        a[0] < b[0]
    } else {
        name_le(a.drop_first(), b.drop_first())
    }
}

/// The order of names is the order of `String`: `a` comes first or equal exactly
/// when it is a prefix of `b`, or when at the first position where they differ `a`
/// has the smaller character (code points compare as UTF-8 bytes do).
pub proof fn lemma_name_le_is_string_order(a: Seq<char>, b: Seq<char>)
    ensures
        name_le(a, b) <==> (a.len() <= b.len() && b.take(a.len() as int) == a) || exists|k: int|
            0 <= k < a.len() && k < b.len() && a.take(k) == b.take(k) && (a[k] as int) < (b[k] as int),
    decreases a.len(),
{
    let prefix = a.len() <= b.len() && b.take(a.len() as int) == a;
    let differs = exists|k: int|
        0 <= k < a.len() && k < b.len() && a.take(k) == b.take(k) && (a[k] as int) < (b[k] as int);
    if a.len() == 0 {
        assert(b.take(0) =~= a);
    } else if b.len() == 0 {
        assert(!differs);
    } else if a[0] != b[0] {
        if a[0] < b[0] {
            assert(a.take(0) =~= b.take(0));
            assert((a[0] as int) < (b[0] as int));
            assert(0 <= 0 < a.len() && 0 < b.len() && a.take(0) == b.take(0) && (a[0] as int) < (b[0] as int));
            assert(differs);
        } else {
            assert(!prefix) by {
                if prefix {
                    assert(b.take(a.len() as int)[0] == b[0]);
                }
            }
            assert(!differs) by {
                if differs {
                    let k = choose|k: int|
                        0 <= k < a.len() && k < b.len() && a.take(k) == b.take(k) && (a[k] as int) < (b[k] as int);
                    if k > 0 {
                        assert(a.take(k)[0] == b.take(k)[0]);
                    } else {
                        assert((a[0] as int) < (b[0] as int));
                        assert(b[0] < a[0]);
                    }
                }
            }
        }
    } else {
        let a1 = a.drop_first();
        let b1 = b.drop_first();
        lemma_name_le_is_string_order(a1, b1);
        let prefix1 = a1.len() <= b1.len() && b1.take(a1.len() as int) == a1;
        let differs1 = exists|k: int|
            0 <= k < a1.len() && k < b1.len() && a1.take(k) == b1.take(k) && (a1[k] as int) < (b1[k] as int);
        assert(prefix <==> prefix1) by {
            if prefix {
                assert(b1.take(a1.len() as int) =~= b.take(a.len() as int).drop_first());
            }
            if prefix1 {
                assert(b.take(a.len() as int) =~= seq![b[0]] + b1.take(a1.len() as int));
                assert(a =~= seq![a[0]] + a1);
            }
        }
        assert(differs <==> differs1) by {
            if differs {
                let k = choose|k: int|
                    0 <= k < a.len() && k < b.len() && a.take(k) == b.take(k) && (a[k] as int) < (b[k] as int);
                assert(k > 0);
                assert(a1.take(k - 1) =~= a.take(k).drop_first());
                assert(b1.take(k - 1) =~= b.take(k).drop_first());
                assert(a1[k - 1] == a[k] && b1[k - 1] == b[k]);
            }
            if differs1 {
                let k = choose|k: int|
                    0 <= k < a1.len() && k < b1.len() && a1.take(k) == b1.take(k) && (a1[k] as int) < (b1[k] as int);
                assert(a.take(k + 1) =~= seq![a[0]] + a1.take(k));
                assert(b.take(k + 1) =~= seq![b[0]] + b1.take(k));
                assert(a[k + 1] == a1[k] && b[k + 1] == b1[k]);
            }
        }
    }
}

pub proof fn lemma_name_le_total(a: Seq<char>, b: Seq<char>)
    ensures
        name_le(a, b) || name_le(b, a),
        name_le(a, b) && name_le(b, a) ==> a == b,
    decreases a.len(),
{
    if a.len() > 0 && b.len() > 0 && a[0] == b[0] {
        lemma_name_le_total(a.drop_first(), b.drop_first());
        if name_le(a, b) && name_le(b, a) {
            assert(a =~= seq![a[0]] + a.drop_first());
            assert(b =~= seq![b[0]] + b.drop_first());
        }
    }
    if a.len() == 0 && b.len() == 0 {
        assert(a =~= b);
    }
}

pub proof fn lemma_name_le_refl(a: Seq<char>)
    ensures
        name_le(a, a),
    decreases a.len(),
{
    if a.len() > 0 {
        lemma_name_le_refl(a.drop_first());
    }
}

pub proof fn lemma_name_le_trans(a: Seq<char>, b: Seq<char>, c: Seq<char>)
    requires
        name_le(a, b),
        name_le(b, c),
    ensures
        name_le(a, c),
    decreases a.len(),
{
    if a.len() > 0 && b.len() > 0 && c.len() > 0 && a[0] == b[0] && b[0] == c[0] {
        lemma_name_le_trans(a.drop_first(), b.drop_first(), c.drop_first());
    }
}

/// Whether `a <= b` in `String` order.
pub fn chars_name_le(a: &[char], b: &[char]) -> (r: bool)
    ensures
        r == name_le(a@, b@),
{
    let mut i: usize = 0;
    assert(a@.skip(0) =~= a@);
    assert(b@.skip(0) =~= b@);
    while i < a.len() && i < b.len() && a[i] == b[i]
        invariant
            i <= a@.len(),
            i <= b@.len(),
            name_le(a@, b@) == name_le(a@.skip(i as int), b@.skip(i as int)),
        decreases a@.len() - i,
    {
        assert(a@.skip(i as int).drop_first() =~= a@.skip(i + 1 as int));
        assert(b@.skip(i as int).drop_first() =~= b@.skip(i + 1 as int));
        i = i + 1;
    }
    assert(a@.skip(0) =~= a@);
    if i == a.len() {
        true
    } else if i == b.len() {
        false
    } else {
        assert(a@.skip(i as int)[0] == a@[i as int]);
        assert(b@.skip(i as int)[0] == b@[i as int]);
        a[i] < b[i]
    }
}

/// The records whose name is `name`, in order.
pub open spec fn named(records: Seq<ClipRecord>, name: Seq<char>) -> Seq<ClipRecord>
    decreases records.len(),
{
    if records.len() == 0 {
        records
    } else if records.last().name@ == name {
        named(records.drop_last(), name).push(records.last())
    } else {
        named(records.drop_last(), name)
    }
}

/// The records are in name order.
pub open spec fn sorted_by_name(records: Seq<ClipRecord>) -> bool {
    forall|i: int, j: int| 0 <= i < j < records.len() ==> name_le(records[i].name@, records[j].name@)
}

/// `sorted` is `records` sorted by name, records with the same name kept in their
/// order (a stable sort).
pub open spec fn is_stable_sort_by_name(records: Seq<ClipRecord>, sorted: Seq<ClipRecord>) -> bool {
    &&& sorted_by_name(sorted)
    &&& forall|name: Seq<char>| #[trigger] named(sorted, name) == named(records, name)
}

proof fn lemma_named_concat(a: Seq<ClipRecord>, b: Seq<ClipRecord>, name: Seq<char>)
    ensures
        named(a + b, name) == named(a, name) + named(b, name),
    decreases b.len(),
{
    if b.len() == 0 {
        assert(a + b =~= a);
        assert(named(a, name) + named(b, name) =~= named(a, name));
    } else {
        lemma_named_concat(a, b.drop_last(), name);
        assert((a + b).drop_last() =~= a + b.drop_last());
        assert((a + b).last() == b.last());
        if b.last().name@ == name {
            assert(named(a, name) + named(b, name) =~= (named(a, name) + named(b.drop_last(), name)).push(b.last()));
        }
    }
}

proof fn lemma_named_none(s: Seq<ClipRecord>, name: Seq<char>)
    requires
        forall|i: int| 0 <= i < s.len() ==> s[i].name@ != name,
    ensures
        named(s, name) == Seq::<ClipRecord>::empty(),
    decreases s.len(),
{
    if s.len() > 0 {
        lemma_named_none(s.drop_last(), name);
    }
}

proof fn lemma_insert_stable(r: Seq<ClipRecord>, pos: int, x: ClipRecord)
    requires
        sorted_by_name(r),
        0 <= pos <= r.len(),
        forall|j: int| 0 <= j < pos ==> name_le(r[j].name@, x.name@),
        forall|j: int| pos <= j < r.len() ==> !name_le(r[j].name@, x.name@),
    ensures
        sorted_by_name(r.insert(pos, x)),
        forall|name: Seq<char>| #[trigger] named(r.insert(pos, x), name) == if x.name@ == name {
            named(r, name).push(x)
        } else {
            named(r, name)
        },
{
    let s = r.insert(pos, x);
    r.insert_ensures(pos, x);
    assert forall|i: int, j: int| 0 <= i < j < s.len() implies name_le(s[i].name@, s[j].name@) by {
        if j < pos {
            assert(s[i] == r[i] && s[j] == r[j]);
        } else if j == pos {
            assert(s[i] == r[i]);
        } else if i < pos {
            assert(s[i] == r[i] && s[j] == r[j - 1]);
        } else if i == pos {
            assert(s[j] == r[j - 1]);
            lemma_name_le_total(r[j - 1].name@, x.name@);
        } else {
            assert(s[i] == r[i - 1] && s[j] == r[j - 1]);
        }
    }
    assert forall|name: Seq<char>| #[trigger] named(s, name) == if x.name@ == name {
        named(r, name).push(x)
    } else {
        named(r, name)
    } by {
        let front = r.take(pos);
        let back = r.skip(pos);
        assert(r =~= front + back);
        assert(s =~= front.push(x) + back);
        lemma_named_concat(front.push(x), back, name);
        lemma_named_concat(front, back, name);
        assert(front.push(x).drop_last() =~= front);
        if x.name@ == name {
            assert forall|i: int| 0 <= i < back.len() implies back[i].name@ != name by {
                assert(back[i] == r[pos + i]);
                lemma_name_le_refl(x.name@);
            }
            lemma_named_none(back, name);
            assert(named(back, name) + Seq::<ClipRecord>::empty() =~= named(back, name));
            assert(named(front, name).push(x) + named(back, name) =~= (named(front, name) + named(back, name)).push(x));
        }
    }
}

/// The records sorted by name, records with the same name kept in their order.
pub fn sort_by_name(records: Vec<ClipRecord>) -> (r: Vec<ClipRecord>)
    ensures
        is_stable_sort_by_name(records@, r@),
{
    let ghost all = records@;
    let total = records.len();
    let mut pending = records;
    let mut sorted: Vec<ClipRecord> = Vec::new();
    let mut k: usize = 0;
    while pending.len() > 0
        invariant
            k + pending@.len() == all.len(),
            all.len() == total,
            pending@ == all.skip(k as int),
            sorted_by_name(sorted@),
            forall|name: Seq<char>| #[trigger] named(sorted@, name) == named(all.take(k as int), name),
        decreases pending@.len(),
    {
        let x = pending.remove(0);
        assert(x == all[k as int]);
        assert(pending@ =~= all.skip(k + 1 as int));
        assert(all.take(k + 1 as int).drop_last() =~= all.take(k as int));
        let xs = chars_of(x.name.as_str());
        let mut pos: usize = 0;
        let mut at_end = false;
        while pos < sorted.len() && !at_end
            invariant
                pos <= sorted@.len(),
                forall|j: int| 0 <= j < pos ==> name_le(sorted@[j].name@, xs@),
                at_end ==> pos < sorted@.len() && !name_le(sorted@[pos as int].name@, xs@),
            decreases sorted@.len() - pos + (if at_end { 0int } else { 1int }),
        {
            let ys = chars_of(sorted[pos].name.as_str());
            if chars_name_le(ys.as_slice(), xs.as_slice()) {
                pos = pos + 1;
            } else {
                at_end = true;
            }
        }
        proof {
            assert forall|j: int| pos <= j < sorted@.len() implies !name_le(sorted@[j].name@, x.name@) by {
                if j > pos {
                    assert(name_le(sorted@[pos as int].name@, sorted@[j].name@));
                    if name_le(sorted@[j].name@, x.name@) {
                        lemma_name_le_trans(sorted@[pos as int].name@, sorted@[j].name@, x.name@);
                    }
                }
            }
            lemma_insert_stable(sorted@, pos as int, x);
        }
        sorted.insert(pos, x);
        k = k + 1;
    }
    assert(all.take(total as int) =~= all);
    sorted
}

/// Whether a file named `file_name` in the clips directory stores the clip `clip_id`.
pub open spec fn stores_clip(file_name: Option<Seq<char>>, clip_id: Seq<char>) -> bool {
    file_name matches Some(n) && clip_id_of_stem(stem_of(n)) == clip_id
}

/// A stored file belongs to one clip at most: no file is picked for deleting two
/// different clips.
pub proof fn lemma_stored_file_has_one_clip(file_name: Option<Seq<char>>, id1: Seq<char>, id2: Seq<char>)
    requires
        stores_clip(file_name, id1),
        stores_clip(file_name, id2),
    ensures
        id1 == id2,
{
}

/// The file an import stores, `{id}.{format}`, is picked when deleting exactly the
/// clip with that id, for any clip id of another import: deleting one clip never
/// removes the file of a clip with a different id, however long a start they share.
pub proof fn lemma_stored_file_picked_only_for_its_clip(
    name: Seq<char>,
    timestamp: nat,
    format: Seq<char>,
    other_id: Seq<char>,
)
    requires
        format == "mp3"@ || format == "wav"@,
    ensures
        stores_clip(Some(stored_file_name(clip_id_for(name, timestamp), format)), other_id) <==> other_id
            == clip_id_for(name, timestamp),
{
    reveal_strlit("mp3");
    reveal_strlit("wav");
    reveal_strlit(".");
    reveal_strlit("__");
    let id = clip_id_for(name, timestamp);
    let file = stored_file_name(id, format);
    lemma_clip_id_chars(name, timestamp);
    assert(file =~= id + seq!['.'] + format);
    let dot = id.len() as int;
    assert(file[dot] == '.');
    lemma_rfind_char(file, '.');
    assert(rfind_char(file, '.') == Some(dot)) by {
        match rfind_char(file, '.') {
            Some(j) => {
                if j < dot {
                    assert(file[dot] == '.');
                } else if j > dot {
                    assert(file[j] == format[j - dot - 1]);
                }
            },
            None => {
                assert(file[dot] == '.');
            },
        }
    }
    assert(stem_of(file) =~= id);
    lemma_find_from_bounds(id, "__"@, 0);
    assert(find(id, "__"@) is None) by {
        if let Some(i) = find(id, "__"@) {
            assert(occurs_at(id, "__"@, i));
            assert(id.subrange(i, i + 2)[0] == id[i]);
            assert(is_id_char(id[i]));
        }
    }
}

/// Whether the file named `file_name` in the clips directory stores the clip
/// `clip_id`, so that deleting the clip removes it.
pub fn is_stored_file_of_clip(file_name: Option<&str>, clip_id: &str) -> (r: bool)
    ensures
        r == stores_clip(
            match file_name {
                Some(n) => Some(n@),
                None => None,
            },
            clip_id@,
        ),
{
    match file_name {
        Some(n) => {
            let (_, stem) = split_extension(n);
            let stem = string_from_chars(stem.as_slice());
            let id = clip_id_from_stem(stem.as_str());
            let a = chars_of(id.as_str());
            let b = chars_of(clip_id);
            chars_equal(a.as_slice(), b.as_slice())
        },
        None => false,
    }
}

/// Whether the file at `path` in the clips directory stores the clip `clip_id`.
pub fn is_stored_path_of_clip(path: &str, clip_id: &str) -> (r: bool)
    ensures
        exists|n: Option<Seq<char>>| file_name_facts(path@, n) && r == stores_clip(n, clip_id@),
{
    let name = path_file_name(path);
    assert(file_name_facts(path@, opt_view(name)));
    is_stored_file_of_clip(opt_str(&name), clip_id)
}

// ---------------------------------------------------------------------
// Ids survive a restart
// ---------------------------------------------------------------------

/// A character of a clip id: an ASCII letter or digit, or a dash.
pub open spec fn is_id_char(c: char) -> bool {
    is_ascii_alnum(c) || c == '-'
}

/// Every character of `s` is a clip id character.
pub open spec fn all_id_chars(s: Seq<char>) -> bool {
    forall|i: int| 0 <= i < s.len() ==> is_id_char(#[trigger] s[i])
}

proof fn lemma_trim_keeps_id_chars(s: Seq<char>, c: char)
    requires
        all_id_chars(s),
    ensures
        all_id_chars(trim_start_char(s, c)),
        all_id_chars(trim_end_char(s, c)),
    decreases s.len(),
{
    if s.len() > 0 {
        assert(all_id_chars(s.drop_first())) by {
            assert forall|i: int| 0 <= i < s.drop_first().len() implies is_id_char(#[trigger] s.drop_first()[i]) by {
                assert(s.drop_first()[i] == s[i + 1]);
            }
        }
        assert(all_id_chars(s.drop_last())) by {
            assert forall|i: int| 0 <= i < s.drop_last().len() implies is_id_char(#[trigger] s.drop_last()[i]) by {
                assert(s.drop_last()[i] == s[i]);
            }
        }
        lemma_trim_keeps_id_chars(s.drop_first(), c);
        lemma_trim_keeps_id_chars(s.drop_last(), c);
    }
}

proof fn lemma_id_chars_concat(a: Seq<char>, b: Seq<char>)
    requires
        all_id_chars(a),
        all_id_chars(b),
    ensures
        all_id_chars(a + b),
{
    assert forall|i: int| 0 <= i < (a + b).len() implies is_id_char(#[trigger] (a + b)[i]) by {
        if i < a.len() {
            assert((a + b)[i] == a[i]);
        } else {
            assert((a + b)[i] == b[i - a.len()]);
        }
    }
}

/// A clip id is made of ASCII letters, digits and dashes, and is never empty.
pub proof fn lemma_clip_id_chars(name: Seq<char>, timestamp: nat)
    ensures
        all_id_chars(clip_id_for(name, timestamp)),
        clip_id_for(name, timestamp).len() > 0,
{
    reveal_strlit("clip");
    reveal_strlit("-");
    let mapped = name.map_values(|c: char| slug_char(c));
    assert(all_id_chars(mapped));
    lemma_trim_keeps_id_chars(mapped, '-');
    lemma_trim_keeps_id_chars(trim_start_char(mapped, '-'), '-');
    assert(all_id_chars("clip"@));
    assert(all_id_chars(slug_of(name)));
    assert(all_id_chars("-"@));
    lemma_decimal_digits(timestamp);
    assert(all_id_chars(decimal(timestamp)));
    lemma_id_chars_concat(slug_of(name), "-"@);
    lemma_id_chars_concat(slug_of(name) + "-"@, decimal(timestamp));
}

proof fn lemma_clip_id_split(name: Seq<char>, timestamp: nat)
    ensures
        rfind_char(clip_id_for(name, timestamp), '-') == Some(slug_of(name).len() as int),
{
    reveal_strlit("-");
    let slug = slug_of(name);
    let d = decimal(timestamp);
    let id = clip_id_for(name, timestamp);
    lemma_decimal_digits(timestamp);
    lemma_rfind_char(id, '-');
    assert(id =~= slug + seq!['-'] + d);
    let dash = slug.len() as int;
    assert(id[dash] == '-');
    match rfind_char(id, '-') {
        Some(i) => {
            if i > dash {
                assert(id[i] == d[i - dash - 1]);
            }
        },
        None => {},
    }
}

/// Clip ids are unique: two clips get the same id exactly when their names have the
/// same slug and they were imported in the same millisecond.
pub proof fn lemma_clip_ids_are_unique(name1: Seq<char>, timestamp1: nat, name2: Seq<char>, timestamp2: nat)
    ensures
        clip_id_for(name1, timestamp1) == clip_id_for(name2, timestamp2) <==> (slug_of(name1) == slug_of(name2)
            && timestamp1 == timestamp2),
{
    reveal_strlit("-");
    let id1 = clip_id_for(name1, timestamp1);
    let id2 = clip_id_for(name2, timestamp2);
    if id1 == id2 {
        lemma_clip_id_split(name1, timestamp1);
        lemma_clip_id_split(name2, timestamp2);
        let s1 = slug_of(name1);
        let s2 = slug_of(name2);
        assert(s1.len() == s2.len());
        assert(id1 =~= s1 + seq!['-'] + decimal(timestamp1));
        assert(id2 =~= s2 + seq!['-'] + decimal(timestamp2));
        assert(s1 =~= id1.take(s1.len() as int));
        assert(s2 =~= id2.take(s2.len() as int));
        assert(decimal(timestamp1) =~= id1.skip(s1.len() as int + 1));
        assert(decimal(timestamp2) =~= id2.skip(s2.len() as int + 1));
        lemma_decimal_injective(timestamp1, timestamp2);
    }
}

/// A clip imported at any time is found again under the same id and format when
/// the clips directory is read back (as after a restart): the stored file
/// `{id}.{format}` yields a record with that id, format and file name, named by
/// the display name of the id.
pub proof fn lemma_imported_id_survives_reload(
    source_stem: Option<Seq<char>>,
    source_extension: Option<Seq<char>>,
    timestamp: nat,
    stored_path: Seq<char>,
)
    requires
        import_parts(source_stem, source_extension, timestamp) is Ok,
    ensures
        ({
            let (stem, id, format) = import_parts(source_stem, source_extension, timestamp)->Ok_0;
            let file = stored_file_name(id, format);
            clip_record_of(stored_path, Some(file)) matches Ok(rec) && rec.id == id && rec.format
                == format && rec.file_name == file && rec.name == display_name_of_id(id)
        }),
{
    reveal_strlit("mp3");
    reveal_strlit("wav");
    reveal_strlit(".");
    reveal_strlit("__");
    let (stem, id, format) = import_parts(source_stem, source_extension, timestamp)->Ok_0;
    let file = stored_file_name(id, format);
    lemma_clip_id_chars(stem, timestamp);
    assert(format == "mp3"@ || format == "wav"@);
    assert(file =~= id + seq!['.'] + format);
    let dot = id.len() as int;
    assert(file[dot] == '.');
    lemma_rfind_char(file, '.');
    assert(rfind_char(file, '.') == Some(dot)) by {
        match rfind_char(file, '.') {
            Some(j) => {
                if j < dot {
                    assert(file[dot] == '.');
                } else if j > dot {
                    assert(file[j] == format[j - dot - 1]);
                }
            },
            None => {
                assert(file[dot] == '.');
            },
        }
    }
    assert(stem_of(file) =~= id);
    assert(extension_of(file) == Some(format)) by {
        assert(file.skip(dot + 1) =~= format);
    }
    assert(ascii_lower_seq(format) =~= format);
    lemma_find_from_bounds(id, "__"@, 0);
    assert(find(id, "__"@) is None) by {
        if let Some(i) = find(id, "__"@) {
            assert(occurs_at(id, "__"@, i));
            assert(id.subrange(i, i + 2)[0] == id[i]);
            assert(is_id_char(id[i]));
        }
    }
}

} // verus!
