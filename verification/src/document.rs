//! Reading configuration documents: file paths, format dispatch by
//! extension, and JSON-lines prompt files.
use vstd::prelude::*;

use crate::error::{msg, res_deep, res_view, ErrorModel, EvelinError};
use crate::json::{
    parse_json_stream, parse_json_text, parse_toml_text, parse_yaml_text, serde_json_document,
    serde_json_stream, serde_yaml_document, toml_document, Converted, ConvertedText, Json,
};
use crate::text::{cat, cat3, is_blank, lower, split, split_str, to_lower, trim, trim_str};

verus! {

// ---------------------------------------------------------------------------
// std::path, called through wrappers
// ---------------------------------------------------------------------------
/// What `Path::file_name` gives for a path, as text.
pub uninterp spec fn path_file_name(path: Seq<char>) -> Option<Seq<char>>;

/// What `Path::is_absolute` says of a path.
pub uninterp spec fn path_is_absolute(path: Seq<char>) -> bool;

/// What `Path::join` makes of a base path and a further part, as text.
pub uninterp spec fn path_join(base: Seq<char>, part: Seq<char>) -> Seq<char>;

/// What `Path::parent` gives for a path, as text.
pub uninterp spec fn path_parent(path: Seq<char>) -> Option<Seq<char>>;

/// Calls `Path::file_name` on `path`; the result is named [`path_file_name`].
#[verifier::external_body]
pub(crate) fn file_name(path: &str) -> (r: Option<String>)
    ensures
        r.deep_view() == path_file_name(path@),
{
    std::path::Path::new(path).file_name().and_then(|v| v.to_str()).map(|v| v.to_owned())
}

/// Calls `Path::is_absolute` on `path`; the result is named
/// [`path_is_absolute`].
#[verifier::external_body]
pub(crate) fn is_absolute(path: &str) -> (r: bool)
    ensures
        r == path_is_absolute(path@),
{
    std::path::Path::new(path).is_absolute()
}

/// A path part that can have neither a root nor a prefix on any platform:
/// it does not begin with a separator (`/` or `\`), and its second
/// character is not `:` (as in a drive prefix such as `D:`). Every prefix
/// std knows (`C:`, `\\server\share`, `\\?\`, `\\.\`) has one of these forms.
pub open spec fn plain_part(part: Seq<char>) -> bool {
    &&& !(part.len() > 0 && (part[0] == '/' || part[0] == '\\'))
    &&& !(part.len() > 1 && part[1] == ':')
}

/// Calls `Path::join` on `base` and `part`; the result is named
/// [`path_join`]. As std documents for `PathBuf::push`, an absolute `part`
/// replaces the base, and a part with neither root nor prefix is appended
/// to it, so it keeps an absolute base's prefix and root. (A part with a
/// prefix but no root, such as `D:y` on Windows, replaces the base; nothing
/// is said of it.)
#[verifier::external_body]
pub(crate) fn join_path(base: &str, part: &str) -> (r: String)
    ensures
        r@ == path_join(base@, part@),
        path_is_absolute(part@) ==> r@ == part@,
        path_is_absolute(base@) && plain_part(part@) ==> path_is_absolute(r@),
{
    std::path::Path::new(base).join(part).to_string_lossy().into_owned()
}

/// Calls `Path::parent` on `path`; the result is named [`path_parent`].
#[verifier::external_body]
pub(crate) fn parent_path(path: &str) -> (r: Option<String>)
    ensures
        r.deep_view() == path_parent(path@),
{
    std::path::Path::new(path).parent().map(|p| p.to_string_lossy().into_owned())
}

// ---------------------------------------------------------------------------
// Extensions and path resolution
// ---------------------------------------------------------------------------
/// The position of the last `c` in `s`, or `-1`.
pub open spec fn last_index_of(s: Seq<char>, c: char) -> int
    decreases s.len(),
{
    if s.len() == 0 {
        -1
    } else if s.last() == c {
        s.len() - 1
    } else {
        last_index_of(s.drop_last(), c)
    }
}

/// The extension of a file name as `Path::extension` documents it: none when
/// there is no `.`, or the only `.` leads the name; else what follows the
/// last `.`.
pub open spec fn extension_of_name(name: Seq<char>) -> Option<Seq<char>> {
    let k = last_index_of(name, '.');
    if k <= 0 {
        None
    } else {
        Some(name.skip(k + 1))
    }
}

/// The lower-cased extension of a path.
pub open spec fn spec_extension(path: Seq<char>) -> Option<Seq<char>> {
    match path_file_name(path) {
        Some(name) => match extension_of_name(name) {
            Some(e) => Some(lower(e)),
            None => None,
        },
        None => None,
    }
}

proof fn lemma_last_index_bounds(s: Seq<char>, c: char)
    ensures
        -1 <= last_index_of(s, c) < s.len(),
        last_index_of(s, c) >= 0 ==> s[last_index_of(s, c)] == c,
    decreases s.len(),
{
    if s.len() > 0 && s.last() != c {
        lemma_last_index_bounds(s.drop_last(), c);
    }
}

fn last_dot(v: &Vec<char>) -> (r: Option<usize>)
    ensures
        match r {
            Some(k) => k == last_index_of(v@, '.') && k < v@.len(),
            None => last_index_of(v@, '.') == -1,
        },
{
    let mut j: usize = v.len();
    assert(v@.take(v@.len() as int) =~= v@);
    while j > 0
        invariant
            j <= v@.len(),
            last_index_of(v@, '.') == last_index_of(v@.take(j as int), '.'),
        decreases j,
    {
        if v[j - 1] == '.' {
            return Some(j - 1);
        }
        assert(v@.take(j as int).drop_last() =~= v@.take(j - 1));
        j -= 1;
    }
    None
}

/// The lower-cased extension of `path`, if it has one.
pub fn extension(path: &str) -> (r: Option<String>)
    ensures
        r.deep_view() == spec_extension(path@),
{
    match file_name(path) {
        None => None,
        Some(name) => {
            let v = crate::text::chars_of(name.as_str());
            match last_dot(&v) {
                None => None,
                Some(k) => {
                    if k == 0 {
                        None
                    } else {
                        let n = v.len();
                        let sub = vstd::slice::slice_subrange(v.as_slice(), k + 1, n);
                        assert(sub@ =~= v@.skip(k + 1));
                        let ext = crate::text::string_of(sub);
                        Some(to_lower(ext.as_str()))
                    }
                },
            }
        },
    }
}

/// `value` as a path: itself when absolute, else joined onto `root`.
pub open spec fn spec_resolve_path(root: Seq<char>, value: Seq<char>) -> Seq<char> {
    if path_is_absolute(value) {
        value
    } else {
        path_join(root, value)
    }
}

/// Resolves `value` against `root`. Against an absolute root, an absolute
/// value or a plain relative one gives an absolute result, and resolving an
/// absolute result again gives it back.
pub fn resolve_path(root: &str, value: &str) -> (r: String)
    ensures
        r@ == spec_resolve_path(root@, value@),
        path_is_absolute(root@) && (path_is_absolute(value@) || plain_part(value@))
            ==> path_is_absolute(r@),
        path_is_absolute(r@) ==> spec_resolve_path(root@, r@) == r@,
{
    if is_absolute(value) {
        value.to_owned()
    } else {
        join_path(root, value)
    }
}

// ---------------------------------------------------------------------------
// Documents
// ---------------------------------------------------------------------------
/// What a configuration file of the given path and text reads as: JSON, YAML
/// or TOML by its extension.
pub open spec fn spec_document(path: Seq<char>, text: Seq<char>) -> Result<Json, ErrorModel> {
    match spec_extension(path) {
        Some(ext) => if ext == "json"@ {
            match serde_json_document(text) {
                Ok(j) => Ok(j),
                Err(m) => Err(ErrorModel::Json(path, m)),
            }
        } else if ext == "yaml"@ || ext == "yml"@ {
            match serde_yaml_document(text) {
                Converted::Document(j) => Ok(j),
                Converted::SyntaxError(m) => Err(ErrorModel::Yaml(path, m)),
                Converted::ConversionError(m) => Err(
                    msg("yaml conversion error at "@ + path + ": "@ + m),
                ),
            }
        } else if ext == "toml"@ {
            match toml_document(text) {
                Converted::Document(j) => Ok(j),
                Converted::SyntaxError(m) => Err(ErrorModel::Toml(path, m)),
                Converted::ConversionError(m) => Err(
                    msg("toml conversion error at "@ + path + ": "@ + m),
                ),
            }
        } else {
            Err(msg("unsupported config extension for "@ + path + ": ."@ + ext))
        },
        None => Err(msg("missing config extension for "@ + path)),
    }
}

pub(crate) fn conversion_error(kind: &str, path: &str, m: &str) -> (r: EvelinError)
    ensures
        r@ == msg(kind@ + " conversion error at "@ + path@ + ": "@ + m@),
{
    let head = cat(kind, " conversion error at ");
    let text = cat3(head.as_str(), path, ": ");
    let full = cat(text.as_str(), m);
    EvelinError::Message(full)
}

/// Reads the text of a configuration file of path `path` as a document.
pub fn document_from_text(path: &str, text: &str) -> (r: Result<Json, EvelinError>)
    ensures
        match (r, spec_document(path@, text@)) {
            (Ok(j), Ok(k)) => j == k,
            (Err(e), Err(f)) => e@ == f,
            _ => false,
        },
{
    let ext = extension(path);
    match ext {
        None => {
            let m = cat("missing config extension for ", path);
            Err(EvelinError::Message(m))
        },
        Some(ext) => {
            if crate::text::str_eq(ext.as_str(), "json") {
                match parse_json_text(text) {
                    Ok(j) => Ok(j),
                    Err(m) => Err(EvelinError::Json { path: path.to_owned(), message: m }),
                }
            } else if crate::text::str_eq(ext.as_str(), "yaml") || crate::text::str_eq(
                ext.as_str(),
                "yml",
            ) {
                match parse_yaml_text(text) {
                    ConvertedText::Document(j) => Ok(j),
                    ConvertedText::SyntaxError(m) => Err(
                        EvelinError::Yaml { path: path.to_owned(), message: m },
                    ),
                    ConvertedText::ConversionError(m) => {
                        let e = conversion_error("yaml", path, m.as_str());
                        assert("yaml"@ + " conversion error at "@ =~= "yaml conversion error at "@)
                            by {
                            reveal_strlit("yaml");
                            reveal_strlit(" conversion error at ");
                            reveal_strlit("yaml conversion error at ");
                        }
                        Err(e)
                    },
                }
            } else if crate::text::str_eq(ext.as_str(), "toml") {
                match parse_toml_text(text) {
                    ConvertedText::Document(j) => Ok(j),
                    ConvertedText::SyntaxError(m) => Err(
                        EvelinError::Toml { path: path.to_owned(), message: m },
                    ),
                    ConvertedText::ConversionError(m) => {
                        let e = conversion_error("toml", path, m.as_str());
                        assert("toml"@ + " conversion error at "@ =~= "toml conversion error at "@)
                            by {
                            reveal_strlit("toml");
                            reveal_strlit(" conversion error at ");
                            reveal_strlit("toml conversion error at ");
                        }
                        Err(e)
                    },
                }
            } else {
                let head = cat3("unsupported config extension for ", path, ": .");
                let m = cat(head.as_str(), ext.as_str());
                Err(EvelinError::Message(m))
            }
        },
    }
}

/// The documents of the non-blank lines of a text, one per line, or `None`
/// when some such line is not a JSON document.
pub open spec fn line_documents(lines: Seq<Seq<char>>) -> Option<Seq<Json>>
    decreases lines.len(),
{
    if lines.len() == 0 {
        Some(seq![])
    } else {
        let line = trim(lines[0]);
        let rest = line_documents(lines.drop_first());
        if line.len() == 0 {
            rest
        } else {
            match serde_json_document(line) {
                Ok(j) => match rest {
                    Some(r) => Some(seq![j] + r),
                    None => None,
                },
                Err(_) => None,
            }
        }
    }
}

/// What a prompts file reads as: one JSON document per non-blank line when
/// every such line is one, else the stream of documents in the whole text.
pub open spec fn spec_jsonl_or_stream(path: Seq<char>, text: Seq<char>) -> Result<
    Seq<Json>,
    ErrorModel,
> {
    match line_documents(split(text, "\n"@)) {
        Some(rows) => Ok(rows),
        None => match serde_json_stream(text) {
            Ok(rows) => Ok(rows),
            Err(m) => Err(ErrorModel::Json(path, m)),
        },
    }
}

/// Reads the text of a prompts file: JSON lines, or else a stream of JSON
/// documents.
pub fn jsonl_or_stream_from_text(path: &str, text: &str) -> (r: Result<Vec<Json>, EvelinError>)
    ensures
        match (r, spec_jsonl_or_stream(path@, text@)) {
            (Ok(v), Ok(w)) => v@ == w,
            (Err(e), Err(f)) => e@ == f,
            _ => false,
        },
{
    proof {
        reveal_strlit("\n");
    }
    let lines = split_str(text, "\n");
    let ghost views = lines@.map_values(|p: String| p@);
    let mut rows: Vec<Json> = Vec::new();
    let mut ok = true;
    let mut i: usize = 0;
    assert(views.skip(0) =~= views);
    while i < lines.len()
        invariant
            i <= lines@.len(),
            views == lines@.map_values(|p: String| p@),
            views == split(text@, "\n"@),
            ok ==> line_documents(views) == match line_documents(views.skip(i as int)) {
                Some(r) => Some(rows@ + r),
                None => None,
            },
            !ok ==> line_documents(views) is None,
        decreases lines.len() - i,
    {
        assert(views.skip(i as int).drop_first() =~= views.skip(i + 1));
        assert(views.skip(i as int)[0] == lines@[i as int]@);
        if ok {
            let line = trim_str(lines[i].as_str());
            if line.as_str().is_empty() {
            } else {
                match parse_json_text(line.as_str()) {
                    Ok(j) => {
                        let ghost before = rows@;
                        rows.push(j);
                        assert(rows@ == before + seq![j]);
                        proof {
                            match line_documents(views.skip(i + 1)) {
                                Some(r) => {
                                    assert(before + (seq![j] + r) =~= rows@ + r);
                                },
                                None => {},
                            }
                        }
                    },
                    Err(_) => {
                        ok = false;
                    },
                }
            }
        }
        i += 1;
    }
    if ok {
        assert(views.skip(i as int).len() == 0);
        assert(rows@ + seq![] =~= rows@);
        Ok(rows)
    } else {
        match parse_json_stream(text) {
            Ok(v) => Ok(v),
            Err(m) => Err(EvelinError::Json { path: path.to_owned(), message: m }),
        }
    }
}

/// The object members of `value`, or an error naming `context`.
pub fn as_object<'a>(value: &'a Json, context: &str) -> (r: Result<
    &'a Vec<(String, Json)>,
    EvelinError,
>)
    ensures
        match r {
            Ok(f) => value.object_of() == Some(f@),
            Err(e) => value.object_of() is None && e@ == msg(context@ + " must be an object"@),
        },
{
    match value.as_object() {
        Some(f) => Ok(f),
        None => Err(EvelinError::Message(cat(context, " must be an object"))),
    }
}

} // verus!
