//! Names and command lines derived from a story: the sanitized file name, the download URL,
//! and the expansion of a download command template.
use vstd::prelude::*;
use vstd::string::{StrSliceExecFns, StringExecFns};

use url::Url;

use crate::config::{format_name, Config, DownloadFormat};
use crate::errors::{ErrorKind, Result, TrackerError};
use crate::story::{story_url, Story};
use crate::text::{decimal, push_char, push_decimal, signed_decimal, signed_decimal_string};

verus! {

/// Whether `c` may not appear in a file name.
pub open spec fn is_forbidden(c: char) -> bool {
    c == '>' || c == '<' || c == ':' || c == '"' || c == '?' || c == '*' || c == '/' || c == '\\'
}

/// `name` with each forbidden character replaced by `_`.
pub open spec fn sanitized(name: Seq<char>) -> Seq<char> {
    name.map_values(|c: char| if is_forbidden(c) { '_' } else { c })
}

/// Replaces the characters forbidden in file names present in `filename` with `_`.
///
/// The forbidden characters are `>`, `<`, `:`, `"`, `?`, `*`, `/` and `\`.
pub fn sanitize_filename(filename: &str) -> (r: String)
    ensures
        r@ == sanitized(filename@),
{
    let n = filename.unicode_len();
    let mut out = String::new();
    let mut i: usize = 0;
    while i < n
        invariant
            n == filename@.len(),
            i <= n,
            out@ == sanitized(filename@.take(i as int)),
        decreases n - i,
    {
        let c = filename.get_char(i);
        let forbidden = c == '>' || c == '<' || c == ':' || c == '"' || c == '?' || c == '*' || c
            == '/' || c == '\\';
        push_char(&mut out, if forbidden { '_' } else { c });
        i += 1;
        assert(out@ =~= sanitized(filename@.take(i as int)));
    }
    assert(filename@.take(n as int) =~= filename@);
    out
}

/// The name of the file that a direct download of `story` in `format` is written to:
/// `{TITLE}.{FORMAT}`, sanitized.
pub open spec fn download_file_name_of(story: Story, format: DownloadFormat) -> Seq<char> {
    sanitized(story.title@ + seq!['.'] + format_name(format))
}

/// The name of `format`, as used in download URLs and file extensions.
pub fn format_str(format: DownloadFormat) -> (r: String)
    ensures
        r@ == format_name(format),
{
    let mut s = String::new();
    match format {
        DownloadFormat::HTML => {
            push_char(&mut s, 'h');
            push_char(&mut s, 't');
            push_char(&mut s, 'm');
            push_char(&mut s, 'l');
        },
        DownloadFormat::EPUB => {
            push_char(&mut s, 'e');
            push_char(&mut s, 'p');
            push_char(&mut s, 'u');
            push_char(&mut s, 'b');
        },
        DownloadFormat::TXT => {
            push_char(&mut s, 't');
            push_char(&mut s, 'x');
            push_char(&mut s, 't');
        },
    }
    assert(s@ =~= format_name(format));
    s
}

/// The name of the file that a direct download of `story` in `format` is written to.
pub fn download_file_name(story: &Story, format: DownloadFormat) -> (r: String)
    ensures
        r@ == download_file_name_of(*story, format),
{
    let mut name = story.title.clone();
    push_char(&mut name, '.');
    let f = format_str(format);
    name.append(f.as_str());
    sanitize_filename(name.as_str())
}

/// The scheme and authority of the Fimfiction site, with the slash that starts the path.
pub open spec fn site_root() -> Seq<char> {
    seq![
        'h', 't', 't', 'p', 's', ':', '/', '/', 'w', 'w', 'w', '.', 'f', 'i', 'm', 'f', 'i', 'c',
        't', 'i', 'o', 'n', '.', 'n', 'e', 't', '/',
    ]
}

/// A character of the plain path segments built here.
pub open spec fn is_segment_char(c: char) -> bool {
    ('a' <= c <= 'z') || ('0' <= c <= '9') || c == '-'
}

/// A relative path of plain segments: lowercase letters, digits and `-`, separated by single
/// slashes, not starting with a slash.
pub open spec fn is_plain_path(p: Seq<char>) -> bool {
    &&& forall|i: int| 0 <= i < p.len() ==> is_segment_char(#[trigger] p[i]) || p[i] == '/'
    &&& p.len() > 0 ==> p[0] != '/'
    &&& forall|i: int| 0 < i < p.len() && #[trigger] p[i] == '/' ==> p[i - 1] != '/'
}

/// A URL on the Fimfiction site whose path is made of plain segments and ends in `/`.
pub open spec fn is_plain_base(s: Seq<char>) -> bool {
    &&& s.len() >= 27
    &&& s.take(27) == site_root()
    &&& s.last() == '/'
    &&& is_plain_path(s.skip(27))
}

/// A non-empty relative path of plain segments.
pub open spec fn is_plain_segment(s: Seq<char>) -> bool {
    s.len() > 0 && is_plain_path(s)
}

/// Relies on `url::Url::parse` and `Url::join`: on the Fimfiction site, resolving a relative
/// path of plain segments against a base whose plain path ends in `/` appends it to the base.
#[verifier::external_body]
fn join_url(base: &str, relative: &str) -> (r: Option<String>)
    ensures
        is_plain_base(base@) && is_plain_segment(relative@) ==> r is Some,
        is_plain_base(base@) && is_plain_segment(relative@) ==> r->0@ == base@ + relative@,
{
    Url::parse(base).and_then(|u| u.join(relative)).ok().map(|u| u.as_str().to_owned())
}

/// The URL under which a story is downloaded in a format.
pub open spec fn download_url(id: u32, format: DownloadFormat) -> Seq<char> {
    "https://www.fimfiction.net/story/download/"@ + decimal(id as nat) + seq!['/'] + format_name(
        format,
    )
}

proof fn lemma_decimal_digits(n: nat)
    ensures
        decimal(n).len() > 0,
        forall|i: int| 0 <= i < decimal(n).len() ==> '0' <= #[trigger] decimal(n)[i] <= '9',
    decreases n,
{
    if n >= 10 {
        lemma_decimal_digits(n / 10);
    }
}

/// Creates the URL from which `story` is downloaded in `format`:
/// `https://www.fimfiction.net/story/download/{ID}/{FORMAT}`.
pub fn download_url_format(story: &Story, format: DownloadFormat) -> (r: String)
    ensures
        r@ == download_url(story.id, format),
{
    let base = "https://www.fimfiction.net/story/download/";
    let mut segment = String::new();
    push_decimal(&mut segment, story.id as u64);
    push_char(&mut segment, '/');
    let f = format_str(format);
    proof {
        reveal_strlit("https://www.fimfiction.net/story/download/");
        lemma_decimal_digits(story.id as nat);
        assert(base@.take(27) =~= site_root());
        assert(base@.skip(27) =~= seq![
            's', 't', 'o', 'r', 'y', '/', 'd', 'o', 'w', 'n', 'l', 'o', 'a', 'd', '/',
        ]);
        assert(is_plain_base(base@));
        assert(is_plain_segment(segment@));
        let joined = base@ + segment@;
        let path = joined.skip(27);
        assert(path =~= base@.skip(27) + segment@);
        assert forall|i: int| 0 < i < path.len() && #[trigger] path[i] == '/' implies path[i - 1]
            != '/' by {
            if i > 15 {
                assert(path[i] == segment@[i - 15]);
                assert(path[i - 1] == segment@[i - 16]);
            } else if i == 15 {
                assert(path[i] == segment@[0]);
            }
        }
        assert forall|i: int| 0 <= i < path.len() implies is_segment_char(#[trigger] path[i])
            || path[i] == '/' by {
            if i >= 15 {
                assert(path[i] == segment@[i - 15]);
            }
        }
        assert(joined.take(27) =~= base@.take(27));
        assert(is_plain_base(joined));
        assert(is_plain_segment(f@));
    }
    let first = match join_url(base, segment.as_str()) {
        Some(u) => u,
        None => {
            proof {
                assert(false);
            }
            String::new()
        },
    };
    let second = match join_url(first.as_str(), f.as_str()) {
        Some(u) => u,
        None => {
            proof {
                assert(false);
            }
            String::new()
        },
    };
    assert(second@ =~= download_url(story.id, format));
    second
}


/// The text that `shellexpand::env_with_context_no_errors` makes of `input` when each
/// variable is looked up among `vars` (name, value), unknown ones being left as they are.
pub uninterp spec fn expanded(input: Seq<char>, vars: Seq<(Seq<char>, Seq<char>)>) -> Seq<char>;

/// The words that `shlex::split` makes of `command`, or `None` where its quoting is
/// malformed.
pub uninterp spec fn shell_words(command: Seq<char>) -> Option<Seq<Seq<char>>>;

/// The views of a list of (name, value) pairs.
pub open spec fn pairs_view(vars: Seq<(String, String)>) -> Seq<(Seq<char>, Seq<char>)> {
    vars.map_values(|p: (String, String)| (p.0@, p.1@))
}

/// The views of a list of strings.
pub open spec fn strings_view(words: Seq<String>) -> Seq<Seq<char>> {
    words.map_values(|w: String| w@)
}

/// The value of the first pair named `name`.
pub open spec fn var_value(vars: Seq<(Seq<char>, Seq<char>)>, name: Seq<char>) -> Option<Seq<char>>
    decreases vars.len(),
{
    if vars.len() == 0 {
        None
    } else if vars[0].0 == name {
        Some(vars[0].1)
    } else {
        var_value(vars.drop_first(), name)
    }
}

/// The value of the first of `vars` named `name`.
pub fn lookup_var(vars: &Vec<(String, String)>, name: &str) -> (r: Option<String>)
    ensures
        r matches Some(v) ==> var_value(pairs_view(vars@), name@) == Some(v@),
        r is None ==> var_value(pairs_view(vars@), name@) is None,
{
    let wanted = name.to_owned();
    let mut i: usize = 0;
    assert(pairs_view(vars@).skip(0) =~= pairs_view(vars@));
    while i < vars.len()
        invariant
            i <= vars.len(),
            wanted@ == name@,
            var_value(pairs_view(vars@), name@) == var_value(pairs_view(vars@).skip(i as int), name@),
        decreases vars.len() - i,
    {
        let ghost rest = pairs_view(vars@).skip(i as int);
        assert(rest.drop_first() =~= pairs_view(vars@).skip(i + 1));
        assert(rest[0] == (vars@[i as int].0@, vars@[i as int].1@));
        if vars[i].0 == wanted {
            return Some(vars[i].1.clone());
        }
        i += 1;
    }
    None
}

/// Relies on `shellexpand::env_with_context_no_errors`: `$NAME` and `${NAME}` are replaced
/// by the value of `NAME` among `vars`; the context closure only calls [`lookup_var`].
#[verifier::external_body]
fn expand_with(input: &str, vars: &Vec<(String, String)>) -> (r: String)
    ensures
        r@ == expanded(input@, pairs_view(vars@)),
{
    shellexpand::env_with_context_no_errors(input, |name: &str| lookup_var(vars, name)).into_owned()
}

/// Relies on `shlex::split`: the words of a command line under POSIX shell quoting, or `None`
/// where the quoting is malformed.
#[verifier::external_body]
fn split_words(command: &str) -> (r: Option<Vec<String>>)
    ensures
        r is Some <==> shell_words(command@) is Some,
        r matches Some(words) ==> strings_view(words@) == shell_words(command@)->0,
{
    shlex::split(command)
}

/// Pairs a name given as a literal with a value.
fn named(name: &str, value: String) -> (r: (String, String))
    ensures
        r.0@ == name@,
        r.1@ == value@,
{
    (name.to_owned(), value)
}

/// The variables of a command template for `story` under `config`, as (name, value) pairs.
pub open spec fn command_vars_of(story: Story, config: Config) -> Seq<(Seq<char>, Seq<char>)> {
    seq![
        ("ID"@, decimal(story.id as nat)),
        ("TITLE"@, sanitized(story.title@)),
        ("AUTHOR"@, sanitized(story.author@)),
        ("CHAPTERS"@, decimal(story.chapter_count as nat)),
        ("WORDS"@, decimal(story.words as nat)),
        ("UPDATE_TIMESTAMP"@, signed_decimal(story.update_datetime as int)),
        ("URL"@, story_url(story.id)),
        ("DOWNLOAD_URL"@, download_url(story.id, config.download_format)),
        ("DOWNLOAD_DIR"@, config.download_dir@),
        ("FORMAT"@, format_name(config.download_format)),
    ]
}

/// The variables that a command template can use:
/// - `ID`: the story ID.
/// - `TITLE`, `AUTHOR`: the title and author, safe to use as file names.
/// - `CHAPTERS`, `WORDS`: the chapter and word counts.
/// - `UPDATE_TIMESTAMP`: the update instant, in seconds since the Unix epoch.
/// - `URL`: the story page.
/// - `DOWNLOAD_URL`: the download URL in the configured format.
/// - `DOWNLOAD_DIR`: the configured download directory.
/// - `FORMAT`: the configured format.
pub fn command_vars(story: &Story, config: &Config) -> (r: Vec<(String, String)>)
    ensures
        pairs_view(r@) == command_vars_of(*story, *config),
{
    let mut vars: Vec<(String, String)> = Vec::new();
    let mut id = String::new();
    push_decimal(&mut id, story.id as u64);
    vars.push(named("ID", id));
    vars.push(named("TITLE", sanitize_filename(story.title.as_str())));
    vars.push(named("AUTHOR", sanitize_filename(story.author.as_str())));
    let mut chapters = String::new();
    push_decimal(&mut chapters, story.chapter_count);
    vars.push(named("CHAPTERS", chapters));
    let mut words = String::new();
    push_decimal(&mut words, story.words);
    vars.push(named("WORDS", words));
    vars.push(named("UPDATE_TIMESTAMP", signed_decimal_string(story.update_datetime)));
    vars.push(named("URL", story.url()));
    vars.push(named("DOWNLOAD_URL", download_url_format(story, config.download_format)));
    vars.push(named("DOWNLOAD_DIR", config.download_dir.clone()));
    vars.push(named("FORMAT", format_str(config.download_format)));
    assert(id@ =~= decimal(story.id as nat));
    assert(chapters@ =~= decimal(story.chapter_count as nat));
    assert(words@ =~= decimal(story.words as nat));
    assert(pairs_view(vars@) =~= command_vars_of(*story, *config));
    vars
}

/// Expands the variables of [`command_vars`] in `command`; unknown variables are left as
/// they are.
pub fn env_with_command_context(command: &str, story: &Story, config: &Config) -> (r: String)
    ensures
        r@ == expanded(command@, command_vars_of(*story, *config)),
{
    let vars = command_vars(story, config);
    expand_with(command, &vars)
}

/// Splits `command` into words under POSIX shell quoting, then expands the variables of
/// [`command_vars`] in each word. The split comes first, so that a value holding spaces (a
/// title) stays within its word. Fails where the quoting is malformed, or where there is no
/// word to run.
pub fn split_str_to_args(command: &str, story: &Story, config: &Config) -> (r: Result<Vec<String>>)
    ensures
        r is Ok <==> (shell_words(command@) is Some && shell_words(command@)->0.len() > 0),
        r matches Ok(args) ==> strings_view(args@) == shell_words(command@)->0.map_values(
            |w: Seq<char>| expanded(w, command_vars_of(*story, *config)),
        ),
        r matches Err(e) ==> e.kind is Custom,
{
    let words = match split_words(command) {
        Some(words) => words,
        None => {
            return Err(
                TrackerError::custom(String::from_str("failed to split command into arguments")),
            )
        },
    };
    if words.len() == 0 {
        return Err(TrackerError::custom(String::from_str("command has no program to run")));
    }
    let vars = command_vars(story, config);
    let mut args: Vec<String> = Vec::new();
    let mut i: usize = 0;
    while i < words.len()
        invariant
            i <= words.len(),
            args.len() == i,
            pairs_view(vars@) == command_vars_of(*story, *config),
            forall|k: int|
                0 <= k < i ==> #[trigger] args@[k]@ == expanded(
                    words@[k]@,
                    command_vars_of(*story, *config),
                ),
        decreases words.len() - i,
    {
        let arg = expand_with(words[i].as_str(), &vars);
        args.push(arg);
        i += 1;
    }
    assert(strings_view(args@) =~= strings_view(words@).map_values(
        |w: Seq<char>| expanded(w, command_vars_of(*story, *config)),
    ));
    Ok(args)
}

} // verus!
