//! Paths, endpoints and tunables.
//!
//! What the environment holds is handed in by the caller. A directory is named
//! by any type `P` that the caller uses for paths.
use crate::decimal;
use crate::text;
use vstd::prelude::*;

verus! {

// ---- OAuth ------------------------------------------------------------------
/// Public client id that the Codex CLI registers with OpenAI. This is not a
/// secret; it is baked into the CLI and identifies the "app" during the OAuth
/// dance.
pub const OAUTH_CLIENT_ID: &'static str = "app_EMoamEEZ73f0CkXaXp7hrann";

/// Where the user logs in.
pub const OAUTH_AUTHORIZE_URL: &'static str = "https://auth.openai.com/oauth/authorize";

/// Where codes and refresh tokens are exchanged.
pub const OAUTH_TOKEN_URL: &'static str = "https://auth.openai.com/oauth/token";

/// What is asked for.
pub const OAUTH_SCOPE: &'static str = "openid profile email offline_access";

/// Fixed loopback port that is registered as the redirect target. It must match
/// exactly or OpenAI rejects the redirect URI.
pub const OAUTH_REDIRECT_PORT: u16 = 1455;

/// The path of the redirect target.
pub const OAUTH_REDIRECT_PATH: &'static str = "/auth/callback";

/// What the requests call themselves.
pub const OAUTH_USER_AGENT: &'static str = "codex-cli";

/// The address on this machine that the browser is sent back to.
pub open spec fn redirect_uri() -> Seq<char> {
    "http://localhost:"@ + decimal::decimal(OAUTH_REDIRECT_PORT as nat) + OAUTH_REDIRECT_PATH@
}

/// The address on this machine that the browser is sent back to.
pub fn oauth_redirect_uri() -> (r: String)
    ensures
        r@ == redirect_uri(),
{
    let mut r = text::owned("http://localhost:");
    decimal::push_decimal(&mut r, OAUTH_REDIRECT_PORT as u64);
    r.append(OAUTH_REDIRECT_PATH);
    r
}

// ---- ChatGPT backend (inference) ---------------------------------------------
/// The consumer Codex backend that serves the ChatGPT subscription. Requests
/// carry the OAuth access token as a bearer plus the `ChatGPT-Account-Id`
/// header.
pub const CODEX_BASE_URL: &'static str = "https://chatgpt.com/backend-api/codex";

/// Default model. Override with `KLAWPLY_MODEL`. If an account silently rejects
/// it, `gpt-5.4` or `gpt-5.3-codex` are the documented fallbacks.
pub const DEFAULT_MODEL: &'static str = "gpt-5.5";

/// The model that is used when `KLAWPLY_MODEL` has the given value.
pub open spec fn chosen_model(value: Option<Seq<char>>) -> Seq<char> {
    match value {
        Some(m) => m,
        None => DEFAULT_MODEL@,
    }
}

/// The model to use, from the value of `KLAWPLY_MODEL`.
pub fn model(value: Option<String>) -> (r: String)
    ensures
        r@ == chosen_model(text::opt_text(value)),
{
    match value {
        Some(m) => m,
        None => text::owned(DEFAULT_MODEL),
    }
}

// ---- Chrome / CDP --------------------------------------------------------------
/// Where Chrome is expected to be listening in debug mode.
pub const CDP_PORT: u16 = 9222;

/// The address at which Chrome tells its websocket URL.
pub open spec fn version_url() -> Seq<char> {
    "http://localhost:"@ + decimal::decimal(CDP_PORT as nat) + "/json/version"@
}

/// The address at which Chrome tells its websocket URL.
pub fn cdp_version_url() -> (r: String)
    ensures
        r@ == version_url(),
{
    let mut r = text::owned("http://localhost:");
    decimal::push_decimal(&mut r, CDP_PORT as u64);
    r.append("/json/version");
    r
}

// ---- Local storage ---------------------------------------------------------------
/// A directory: one that was named, or the one that `.` stands for.
pub enum Dir<P> {
    /// The directory of that path.
    At(P),
    /// The directory `.`.
    Here,
}

/// A file: a directory and the names to follow from there.
pub struct FilePath<P> {
    /// Where to start.
    pub base: Dir<P>,
    /// The names of the directories below it, and of the file.
    pub parts: Vec<String>,
}

/// What a [`FilePath`] stands for.
pub struct FilePathModel<P> {
    /// Where to start.
    pub base: Dir<P>,
    /// The names of the directories below it, and of the file.
    pub parts: Seq<Seq<char>>,
}

impl<P> View for FilePath<P> {
    type V = FilePathModel<P>;

    open spec fn view(&self) -> FilePathModel<P> {
        FilePathModel { base: self.base, parts: text::texts(self.parts@) }
    }
}

/// The file of that name in a directory.
pub fn file_in<P>(base: Dir<P>, name: &str) -> (r: FilePath<P>)
    ensures
        r@ == (FilePathModel { base, parts: seq![name@] }),
{
    let mut parts: Vec<String> = Vec::new();
    parts.push(text::owned(name));
    assert(text::texts(parts@) =~= seq![name@]);
    FilePath { base, parts }
}

/// The named directory, or `.`.
pub open spec fn dir_or_here<P>(named: Option<P>) -> Dir<P> {
    match named {
        Some(p) => Dir::At(p),
        None => Dir::Here,
    }
}

/// The home directory, from the value of `HOME`.
pub fn home<P>(named: Option<P>) -> (r: Dir<P>)
    ensures
        r == dir_or_here(named),
{
    match named {
        Some(p) => Dir::At(p),
        None => Dir::Here,
    }
}

/// Where `resume.txt` and `fields.json` live: `KLAWPLY_HOME`, or else the
/// directory that the program was launched from, so that the files are easy to
/// find and edit.
pub fn data_dir<P>(klawply_home: Option<P>, current_dir: Option<P>) -> (r: Dir<P>)
    ensures
        r == match klawply_home {
            Some(p) => Dir::At(p),
            None => dir_or_here(current_dir),
        },
{
    match klawply_home {
        Some(p) => Dir::At(p),
        None => match current_dir {
            Some(p) => Dir::At(p),
            None => Dir::Here,
        },
    }
}

/// Where the application fields are kept.
pub fn fields_path<P>(data_dir: Dir<P>) -> (r: FilePath<P>)
    ensures
        r@ == (FilePathModel { base: data_dir, parts: seq!["fields.json"@] }),
{
    file_in(data_dir, "fields.json")
}

/// Where the resume text is kept.
pub fn resume_path<P>(data_dir: Dir<P>) -> (r: FilePath<P>)
    ensures
        r@ == (FilePathModel { base: data_dir, parts: seq!["resume.txt"@] }),
{
    file_in(data_dir, "resume.txt")
}

/// The names under which a resume document is looked for, in this order.
pub open spec fn document_names() -> Seq<Seq<char>> {
    seq![
        "resume.pdf"@,
        "resume.docx"@,
        "resume.doc"@,
        "resume.rtf"@,
        "cv.pdf"@,
        "cv.docx"@,
    ]
}

/// The names under which a resume document is looked for, in this order.
pub fn resume_document_names() -> (r: Vec<String>)
    ensures
        text::texts(r@) == document_names(),
{
    let mut r: Vec<String> = Vec::new();
    r.push(text::owned("resume.pdf"));
    r.push(text::owned("resume.docx"));
    r.push(text::owned("resume.doc"));
    r.push(text::owned("resume.rtf"));
    r.push(text::owned("cv.pdf"));
    r.push(text::owned("cv.docx"));
    assert(text::texts(r@) =~= document_names());
    r
}

/// The place of the first `true` in `b`, or its length.
pub open spec fn first_true(b: Seq<bool>) -> int
    decreases b.len(),
{
    if b.len() == 0 || b[0] {
        0
    } else {
        1 + first_true(b.drop_first())
    }
}

/// The document to upload: the one that was named, if it is a file; else the
/// first of the usual names that is a file in the data directory.
pub open spec fn document<P>(
    named: Option<(P, bool)>,
    data_dir: Dir<P>,
    present: Seq<bool>,
) -> Option<FilePathModel<P>> {
    let i = first_true(present);
    match named {
        Some((path, true)) => Some(FilePathModel { base: Dir::At(path), parts: Seq::empty() }),
        _ => if i < present.len() && i < document_names().len() {
            Some(FilePathModel { base: data_dir, parts: seq![document_names()[i]] })
        } else {
            None
        },
    }
}

/// The resume *document* to upload to file-upload fields (as opposed to the
/// plain-text `resume.txt` used for field extraction): `KLAWPLY_RESUME_FILE`
/// with whether it is a file, else the first of [`resume_document_names`] that
/// is a file in the data directory, as `present` tells of each. `None` if the
/// user has not placed one.
pub fn resume_document_path<P>(
    named: Option<(P, bool)>,
    data_dir: Dir<P>,
    present: &Vec<bool>,
) -> (r: Option<FilePath<P>>)
    ensures
        match r {
            Some(f) => document(named, data_dir, present@) == Some(f@),
            None => document(named, data_dir, present@) is None,
        },
{
    match named {
        Some((path, true)) => {
            let f = FilePath { base: Dir::At(path), parts: Vec::new() };
            assert(text::texts(f.parts@) =~= Seq::<Seq<char>>::empty());
            return Some(f);
        },
        _ => {},
    }
    let names = resume_document_names();
    let mut i: usize = 0;
    assert(present@.skip(0) =~= present@);
    while i < present.len() && !present[i]
        invariant
            0 <= i <= present@.len(),
            first_true(present@) == i + first_true(present@.skip(i as int)),
        decreases present@.len() - i,
    {
        assert(present@.skip(i as int).drop_first() =~= present@.skip(i + 1));
        i += 1;
    }
    assert(first_true(present@) == i);
    if i < present.len() && i < names.len() {
        assert(document_names()[i as int] == names@[i as int]@);
        Some(file_in(data_dir, names[i].as_str()))
    } else {
        None
    }
}

/// The file of the stored login, from the values of `CODEX_HOME` and `HOME`.
pub open spec fn auth_file_path<P>(codex_home: Option<P>, home: Option<P>) -> FilePathModel<P> {
    match codex_home {
        Some(p) => FilePathModel { base: Dir::At(p), parts: seq!["auth.json"@] },
        None => FilePathModel { base: dir_or_here(home), parts: seq![".codex"@, "auth.json"@] },
    }
}

/// The token file that is shared with the Codex CLI: `~/.codex/auth.json`.
/// Logins are imported from it and written back, so that the two stay in sync.
pub fn codex_auth_path<P>(codex_home: Option<P>, home_dir: Option<P>) -> (r: FilePath<P>)
    ensures
        r@ == auth_file_path(codex_home, home_dir),
{
    match codex_home {
        Some(p) => file_in(Dir::At(p), "auth.json"),
        None => {
            let mut parts: Vec<String> = Vec::new();
            parts.push(text::owned(".codex"));
            parts.push(text::owned("auth.json"));
            assert(text::texts(parts@) =~= seq![".codex"@, "auth.json"@]);
            FilePath { base: home(home_dir), parts }
        },
    }
}

/// Whether the value of an environment variable switches something on: `1` or
/// `true`.
pub open spec fn is_switch(value: Option<Seq<char>>) -> bool {
    value == Some("1"@) || value == Some("true"@)
}

/// Whether the value of an environment variable switches something on.
pub fn switched_on(value: &Option<String>) -> (r: bool)
    ensures
        r == is_switch(text::opt_text(*value)),
{
    match value {
        Some(v) => text::same(v.as_str(), "1") || text::same(v.as_str(), "true"),
        None => false,
    }
}

// ---------------------------------------------------------------------------
// Laws
// ---------------------------------------------------------------------------
/// A model that is named is used, and the default where none is.
pub proof fn a_named_model_is_used(name: Seq<char>)
    ensures
        chosen_model(Some(name)) == name,
        chosen_model(None) == DEFAULT_MODEL@,
{
}

/// The document that is uploaded is the one that was named, where it is a file;
/// else the first of the usual names that is one.
pub proof fn the_first_document_is_taken<P>(
    named: Option<(P, bool)>,
    path: P,
    data_dir: Dir<P>,
    present: Seq<bool>,
    i: int,
)
    requires
        present.len() == 6,
        0 <= i < 6,
        present[i],
        forall|k: int| 0 <= k < i ==> !#[trigger] present[k],
        !(named matches Some((_, true))),
    ensures
        document(Some((path, true)), data_dir, present) == Some(
            FilePathModel { base: Dir::At(path), parts: Seq::empty() },
        ),
        document(named, data_dir, present) == Some(
            FilePathModel {
                base: data_dir,
                parts: seq![
                    if i == 0 {
                        "resume.pdf"@
                    } else if i == 1 {
                        "resume.docx"@
                    } else if i == 2 {
                        "resume.doc"@
                    } else if i == 3 {
                        "resume.rtf"@
                    } else if i == 4 {
                        "cv.pdf"@
                    } else {
                        "cv.docx"@
                    },
                ],
            },
        ),
{
    lemma_first_true_is(present, i);
}

proof fn lemma_first_true_is(b: Seq<bool>, i: int)
    requires
        0 <= i <= b.len(),
        i < b.len() ==> b[i],
        forall|k: int| 0 <= k < i ==> !#[trigger] b[k],
    ensures
        first_true(b) == i,
    decreases i,
{
    if i > 0 {
        let rest = b.drop_first();
        assert(!b[0]);
        assert forall|k: int| 0 <= k < i - 1 implies !#[trigger] rest[k] by {
            assert(rest[k] == b[k + 1]);
        }
        lemma_first_true_is(rest, i - 1);
    }
}

/// Where no document is there, none is uploaded.
pub proof fn no_document_is_made_up<P>(
    named: Option<(P, bool)>,
    data_dir: Dir<P>,
    present: Seq<bool>,
)
    requires
        forall|k: int| 0 <= k < present.len() ==> !#[trigger] present[k],
        !(named matches Some((_, true))),
    ensures
        document(named, data_dir, present) is None,
{
    lemma_first_true_is(present, present.len() as int);
}

/// The stored login lies in the Codex directory: the one that is named, or
/// `.codex` in the home directory.
pub proof fn the_login_is_shared<P>(codex_home: P, home: P)
    ensures
        auth_file_path(Some(codex_home), Some(home)) == (FilePathModel {
            base: Dir::At(codex_home),
            parts: seq!["auth.json"@],
        }),
        auth_file_path(None, Some(home)) == (FilePathModel {
            base: Dir::At(home),
            parts: seq![".codex"@, "auth.json"@],
        }),
        auth_file_path(None::<P>, None) == (FilePathModel {
            base: Dir::<P>::Here,
            parts: seq![".codex"@, "auth.json"@],
        }),
{
}

/// Addresses on this machine are those of the fixed ports.
pub proof fn addresses_are_local()
    ensures
        redirect_uri() == "http://localhost:1455/auth/callback"@,
        version_url() == "http://localhost:9222/json/version"@,
{
    reveal_strlit("http://localhost:");
    reveal_strlit("/auth/callback");
    reveal_strlit("/json/version");
    reveal_strlit("http://localhost:1455/auth/callback");
    reveal_strlit("http://localhost:9222/json/version");
    reveal_with_fuel(decimal::decimal, 5);
    assert(redirect_uri() =~= "http://localhost:1455/auth/callback"@);
    assert(version_url() =~= "http://localhost:9222/json/version"@);
}

} // verus!
