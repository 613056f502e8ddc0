//! Where the database lives: the rules that turn what the environment,
//! the command line and the defaults give into a database URL and the path
//! of its file.

use crate::text::{has_prefix, owned_text_of, str_has_prefix, text_of};
use vstd::prelude::*;
use vstd::string::*;

verus! {

/// The path of the file that a SQLite URL names: what follows `sqlite:`,
/// with `//` after it dropped where it is there, and a third `/` kept as
/// the root of an absolute path. `None` where the text is no SQLite URL.
pub open spec fn fs_path_of(url: Seq<char>) -> Option<Seq<char>> {
    if has_prefix(url, "sqlite:///"@) {
        Some("/"@ + url.skip("sqlite:///"@.len() as int))
    } else if has_prefix(url, "sqlite://"@) {
        Some(url.skip("sqlite://"@.len() as int))
    } else if has_prefix(url, "sqlite:"@) {
        Some(url.skip("sqlite:"@.len() as int))
    } else {
        None
    }
}

/// The URL of the database at a path: `sqlite://` before an absolute path,
/// `sqlite:` before a relative one.
pub open spec fn url_of_path(path: Seq<char>, absolute: bool) -> Seq<char> {
    if absolute {
        "sqlite://"@ + path
    } else {
        "sqlite:"@ + path
    }
}

/// The URL and file path of the database. A SQLite URL in the environment
/// comes first, then what the command line names, a URL or a path, then
/// the default path. `absolute` says whether the path that a URL is made
/// from is absolute.
pub open spec fn resolved(
    env_url: Option<Seq<char>>,
    cli_db: Option<Seq<char>>,
    default_path: Seq<char>,
    absolute: bool,
) -> (Seq<char>, Seq<char>) {
    if env_url is Some && has_prefix(env_url->0, "sqlite:"@) {
        (env_url->0, path_or(fs_path_of(env_url->0), default_path))
    } else if cli_db is Some {
        if has_prefix(cli_db->0, "sqlite:"@) {
            (cli_db->0, path_or(fs_path_of(cli_db->0), default_path))
        } else {
            (url_of_path(cli_db->0, absolute), cli_db->0)
        }
    } else {
        (url_of_path(default_path, absolute), default_path)
    }
}

/// The path, or the default where there is none.
pub open spec fn path_or(path: Option<Seq<char>>, default_path: Seq<char>) -> Seq<char> {
    match path {
        Some(p) => p,
        None => default_path,
    }
}

/// Calls `Path::is_absolute`. What counts as absolute depends on the
/// platform: nothing is claimed of the answer.
#[verifier::external_body]
fn path_is_absolute(path: &str) -> (r: bool) {
    std::path::Path::new(path).is_absolute()
}

/// What is left of a text behind its first `n` characters.
fn tail(s: &str, n: usize) -> (r: &str)
    requires
        n <= s@.len(),
    ensures
        r@ == s@.skip(n as int),
{
    let len: usize = s.unicode_len();
    let r: &str = s.substring_char(n, len);
    assert(r@ =~= s@.skip(n as int));
    r
}

/// Whether the text is a SQLite URL.
pub fn is_sqlite_url(s: &str) -> (r: bool)
    ensures
        r == has_prefix(s@, "sqlite:"@),
{
    str_has_prefix(s, "sqlite:")
}

/// The path of the file that a SQLite URL names, or `None` where the text
/// is no SQLite URL: `sqlite:///abs/path` gives `/abs/path`, and both
/// `sqlite://relative.db` and `sqlite:relative.db` give `relative.db`.
pub fn url_to_fs_path(url: &str) -> (r: Option<String>)
    ensures
        owned_text_of(r) == fs_path_of(url@),
{
    proof {
        reveal_strlit("sqlite:///");
        reveal_strlit("sqlite://");
        reveal_strlit("sqlite:");
    }
    if str_has_prefix(url, "sqlite:///") {
        let mut path: String = String::from_str("/");
        path.append(tail(url, 10));
        Some(path)
    } else if str_has_prefix(url, "sqlite://") {
        Some(tail(url, 9).to_owned())
    } else if str_has_prefix(url, "sqlite:") {
        Some(tail(url, 7).to_owned())
    } else {
        None
    }
}

/// The URL of the database at a path.
pub fn path_to_url(path: &str, absolute: bool) -> (r: String)
    ensures
        r@ == url_of_path(path@, absolute),
{
    let mut url: String = if absolute {
        String::from_str("sqlite://")
    } else {
        String::from_str("sqlite:")
    };
    url.append(path);
    url
}

/// The URL and file path of the database, given what the environment and
/// the command line say of it and the default path. Whether a path is
/// absolute is the platform's to say.
pub fn resolve_db_url(env_url: Option<&str>, cli_db: Option<&str>, default_path: &str) -> (r: (
    String,
    String,
))
    ensures
        exists|absolute: bool|
            (r.0@, r.1@) == #[trigger] resolved(
                text_of(env_url),
                text_of(cli_db),
                default_path@,
                absolute,
            ),
{
    if let Some(url) = env_url {
        if is_sqlite_url(url) {
            assert((url@, path_or(fs_path_of(url@), default_path@)) == resolved(
                text_of(env_url),
                text_of(cli_db),
                default_path@,
                true,
            ));
            return (url.to_owned(), path_or_default(url_to_fs_path(url), default_path));
        }
    }
    if let Some(db) = cli_db {
        if is_sqlite_url(db) {
            assert((db@, path_or(fs_path_of(db@), default_path@)) == resolved(
                text_of(env_url),
                text_of(cli_db),
                default_path@,
                true,
            ));
            return (db.to_owned(), path_or_default(url_to_fs_path(db), default_path));
        }
        let absolute: bool = path_is_absolute(db);
        assert((url_of_path(db@, absolute), db@) == resolved(
            text_of(env_url),
            text_of(cli_db),
            default_path@,
            absolute,
        ));
        return (path_to_url(db, absolute), db.to_owned());
    }
    let absolute: bool = path_is_absolute(default_path);
    assert((url_of_path(default_path@, absolute), default_path@) == resolved(
        text_of(env_url),
        text_of(cli_db),
        default_path@,
        absolute,
    ));
    (path_to_url(default_path, absolute), default_path.to_owned())
}

/// The path, or the default where there is none.
fn path_or_default(path: Option<String>, default_path: &str) -> (r: String)
    ensures
        r@ == path_or(owned_text_of(path), default_path@),
{
    match path {
        Some(p) => p,
        None => default_path.to_owned(),
    }
}

} // verus!
