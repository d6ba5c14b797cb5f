//! Accounts, settings and secrets.
use vstd::prelude::*;
use vstd::string::StringExecFns;
use vstd::utf8::encode_utf8;

use crate::desk::Settings;
use crate::listing::less;
use crate::order::{
    by_rank, is_order, law_ordered, law_text_less, order, ordered, text_less, Ranked,
};
use crate::text::{
    begins_with, decode_lossy, lowercase, starts_with, texts, to_lower, trim, trimmed, utf8_lossy,
};

verus! {

/// The directory of the program's own files, below the user's.
pub const APP_NAME: &'static str = "zeroterm";

/// The file with the credentials of a single account.
pub const CREDENTIALS_FILE: &'static str = "credentials.toml";

/// The file with the accounts and the settings.
pub const CONFIG_FILE: &'static str = "config.toml";

// ---------------------------------------------------------------------------
// Where the files are

/// Whether `s` ends with `p`.
pub open spec fn ends_with(s: Seq<u8>, p: Seq<u8>) -> bool {
    s.len() >= p.len() && s.skip(s.len() - p.len()) == p
}

/// The end of a path: a slash, and a name in UTF-8.
pub open spec fn below(name: Seq<char>) -> Seq<u8> {
    seq![47u8] + encode_utf8(name)
}

/// `xdg::BaseDirectories::with_prefix`, then `get_config_home`: the directory of the
/// user's configuration, and below it the prefix, with or without a slash at the end, as the
/// bytes of its path. There is none where the environment names no home. Where the directory
/// is depends on the environment and is left unsaid.
#[verifier::external_body]
fn config_home(prefix: &str) -> (r: Option<Vec<u8>>)
    requires
        prefix@.len() > 0,
        prefix@[0] != '/',
    ensures
        match r {
            Some(dir) => ends_with(dir@, below(prefix@)) || ends_with(
                dir@,
                below(prefix@) + seq![47u8],
            ),
            None => true,
        },
{
    let dirs = xdg::BaseDirectories::with_prefix(prefix).ok()?;
    Some(dirs.get_config_home().into_os_string().into_encoded_bytes())
}

/// The directory of the program's own files, given that of the user's configuration.
pub fn config_dir_from(home: Option<Vec<u8>>) -> (r: Result<Vec<u8>, String>)
    ensures
        match (home, r) {
            (Some(dir), Ok(path)) => path@ == dir@,
            (None, Err(e)) => e@ == "Failed to determine config directory"@,
            _ => false,
        },
{
    match home {
        Some(dir) => Ok(dir),
        None => Err("Failed to determine config directory".to_owned()),
    }
}

/// The directory of the program's own files, as the bytes of its path. It lies in the
/// directory of the user's configuration, if the environment names one.
pub fn config_dir() -> (r: Result<Vec<u8>, String>)
    ensures
        match r {
            Ok(dir) => ends_with(dir@, below(APP_NAME@)) || ends_with(
                dir@,
                below(APP_NAME@) + seq![47u8],
            ),
            Err(e) => e@ == "Failed to determine config directory"@,
        },
{
    proof {
        reveal_strlit("zeroterm");
    }
    config_dir_from(config_home(APP_NAME))
}

/// The path of a file in a directory.
pub open spec fn file_in(dir: Seq<u8>, name: Seq<char>) -> Seq<u8> {
    if dir.len() == 0 || dir.last() == 47 {
        dir + encode_utf8(name)
    } else {
        dir + seq![47u8] + encode_utf8(name)
    }
}

/// The path of a file in a directory.
pub fn path_of(dir: &[u8], name: &str) -> (r: Vec<u8>)
    ensures
        r@ == file_in(dir@, name@),
{
    let mut r: Vec<u8> = Vec::new();
    append_bytes(&mut r, dir);
    if dir.len() > 0 && dir[dir.len() - 1] != 47 {
        r.push(47);
        assert(r@ =~= dir@ + seq![47u8]);
    }
    append_bytes(&mut r, name.as_bytes());
    r
}

fn append_bytes(r: &mut Vec<u8>, more: &[u8])
    ensures
        final(r)@ == old(r)@ + more@,
{
    let ghost before = r@;
    let mut i: usize = 0;
    assert(before + more@.take(0) =~= before);
    while i < more.len()
        invariant
            i <= more@.len(),
            r@ == before + more@.take(i as int),
        decreases more@.len() - i,
    {
        r.push(more[i]);
        assert(more@.take(i as int).push(more@[i as int]) =~= more@.take(i + 1));
        assert(r@ =~= before + more@.take(i + 1));
        i += 1;
    }
    assert(more@.take(i as int) =~= more@);
}

/// A file of the program's directory lies below the program's name.
proof fn lemma_file_in(dir: Seq<u8>, name: Seq<char>)
    requires
        ends_with(dir, below(APP_NAME@)) || ends_with(dir, below(APP_NAME@) + seq![47u8]),
    ensures
        ends_with(file_in(dir, name), below(APP_NAME@) + below(name)),
{
    reveal_strlit("zeroterm");
    let p = below(APP_NAME@);
    let q = p + seq![47u8];
    let n = encode_utf8(name);
    let path = file_in(dir, name);
    let end = p + below(name);
    vstd::utf8::is_ascii_chars_encode_utf8(APP_NAME@);
    assert(p.last() == 109);
    assert(q.last() == 47);
    assert(end =~= q + n);
    if ends_with(dir, p) {
        assert(dir.skip(dir.len() - p.len()).last() == dir.last());
        assert(path.skip(path.len() - end.len()) =~= dir.skip(dir.len() - p.len()) + seq![47u8]
            + n);
    } else {
        assert(dir.skip(dir.len() - q.len()).last() == dir.last());
        assert(path.skip(path.len() - end.len()) =~= dir.skip(dir.len() - q.len()) + n);
    }
}

/// The file with the credentials of a single account, as the bytes of its path.
pub fn credentials_path() -> (r: Result<Vec<u8>, String>)
    ensures
        match r {
            Ok(path) => ends_with(path@, below(APP_NAME@) + below(CREDENTIALS_FILE@)),
            Err(e) => e@ == "Failed to determine config directory"@,
        },
{
    match config_dir() {
        Ok(dir) => {
            proof {
                lemma_file_in(dir@, CREDENTIALS_FILE@);
            }
            Ok(path_of(dir.as_slice(), CREDENTIALS_FILE))
        },
        Err(e) => Err(e),
    }
}

/// The file with the accounts and the settings, as the bytes of its path.
pub fn config_path() -> (r: Result<Vec<u8>, String>)
    ensures
        match r {
            Ok(path) => ends_with(path@, below(APP_NAME@) + below(CONFIG_FILE@)),
            Err(e) => e@ == "Failed to determine config directory"@,
        },
{
    match config_dir() {
        Ok(dir) => {
            proof {
                lemma_file_in(dir@, CONFIG_FILE@);
            }
            Ok(path_of(dir.as_slice(), CONFIG_FILE))
        },
        Err(e) => Err(e),
    }
}

// ---------------------------------------------------------------------------
// TOML

/// What stands at some place of a TOML document.
pub enum TomlItem {
    Text(String),
    Integer(i64),
    Boolean(bool),
    /// The keys of a table.
    Table(Vec<String>),
    /// A float, a date or an array.
    Other,
    Missing,
}

/// What a [`TomlItem`] holds.
#[verifier::ext_equal]
pub enum TomlItemV {
    Text(Seq<char>),
    Integer(i64),
    Boolean(bool),
    Table(Seq<Seq<char>>),
    Other,
    Missing,
}

impl View for TomlItem {
    type V = TomlItemV;

    open spec fn view(&self) -> TomlItemV {
        match self {
            TomlItem::Text(s) => TomlItemV::Text(s@),
            TomlItem::Integer(n) => TomlItemV::Integer(*n),
            TomlItem::Boolean(b) => TomlItemV::Boolean(*b),
            TomlItem::Table(keys) => TomlItemV::Table(texts(keys@)),
            TomlItem::Other => TomlItemV::Other,
            TomlItem::Missing => TomlItemV::Missing,
        }
    }
}

/// What `toml::from_str` finds in a document below a path of keys; nothing where the text is
/// no TOML document.
pub uninterp spec fn toml_item(document: Seq<char>, path: Seq<Seq<char>>) -> Option<TomlItemV>;

/// What an optional [`TomlItem`] holds.
pub open spec fn item_view(item: Option<TomlItem>) -> Option<TomlItemV> {
    match item {
        Some(item) => Some(item@),
        None => None,
    }
}

/// `toml::from_str` into a `toml::Value`, then `toml::Value::get` for each key of a path: a
/// function of the document and the path.
#[verifier::external_body]
pub(crate) fn toml_at(document: &str, path: &Vec<String>) -> (r: Option<TomlItem>)
    ensures
        item_view(r) == toml_item(document@, texts(path@)),
{
    let value: toml::Value = toml::from_str(document).ok()?;
    let found = path.iter().try_fold(&value, |v, key| v.get(key.as_str()));
    Some(match found {
        Some(toml::Value::String(s)) => TomlItem::Text(s.clone()),
        Some(toml::Value::Integer(n)) => TomlItem::Integer(*n),
        Some(toml::Value::Boolean(b)) => TomlItem::Boolean(*b),
        Some(toml::Value::Table(t)) => TomlItem::Table(t.keys().cloned().collect()),
        Some(_) => TomlItem::Other,
        None => TomlItem::Missing,
    })
}

/// What stands at a key of a document.
pub open spec fn top_item(document: Seq<char>, key: Seq<char>) -> Option<TomlItemV> {
    toml_item(document, seq![key])
}

fn toml_key(document: &str, key: &str) -> (r: Option<TomlItem>)
    ensures
        item_view(r) == top_item(document@, key@),
{
    let mut path: Vec<String> = Vec::new();
    path.push(key.to_owned());
    assert(texts(path@) =~= seq![key@]);
    toml_at(document, &path)
}

// ---------------------------------------------------------------------------
// Secrets

/// What turns the value of a setting into the secret it stands for.
pub trait SecretResolver {
    fn resolve(&self, value: &str) -> (r: Result<String, String>);
}

/// What a command came to.
pub struct CommandOutput {
    pub success: bool,
    pub stdout: Vec<u8>,
    pub stderr: Vec<u8>,
}

/// Resolves references to secrets that 1Password keeps, with what its command came to where
/// it was run.
pub struct OpSecretResolver {
    pub output: Option<CommandOutput>,
}

/// Whether a value is a reference to a secret, rather than the secret.
pub open spec fn is_reference(value: Seq<char>) -> bool {
    begins_with(value, "op://"@)
}

/// Whether a value is a reference to a secret, rather than the secret.
pub fn is_secret_reference(value: &str) -> (r: bool)
    ensures
        r == is_reference(value@),
{
    starts_with(value, "op://")
}

/// What a text or an error reads.
pub open spec fn result_text(r: Result<String, String>) -> Result<Seq<char>, Seq<char>> {
    match r {
        Ok(s) => Ok(s@),
        Err(e) => Err(e@),
    }
}

/// The secret that a value stands for: the value itself, or what the command printed for a
/// reference.
pub open spec fn resolved(value: Seq<char>, output: Option<CommandOutput>) -> Result<
    Seq<char>,
    Seq<char>,
> {
    if !is_reference(value) {
        Ok(value)
    } else {
        match output {
            None => Err("Failed to run 'op' command. Is 1Password CLI installed?"@),
            Some(output) => if output.success {
                Ok(trimmed(utf8_lossy(output.stdout@)))
            } else {
                Err(
                    "Failed to read secret from 1Password: "@ + trimmed(
                        utf8_lossy(output.stderr@),
                    ),
                )
            },
        }
    }
}

impl SecretResolver for OpSecretResolver {
    fn resolve(&self, value: &str) -> (r: Result<String, String>)
        ensures
            result_text(r) == resolved(value@, self.output),
    {
        if !is_secret_reference(value) {
            return Ok(value.to_owned());
        }
        match &self.output {
            None => Err("Failed to run 'op' command. Is 1Password CLI installed?".to_owned()),
            Some(output) => {
                if output.success {
                    Ok(trim(decode_lossy(output.stdout.as_slice()).as_str()))
                } else {
                    let mut e: String = "Failed to read secret from 1Password: ".to_owned();
                    e.append(trim(decode_lossy(output.stderr.as_slice()).as_str()).as_str());
                    Err(e)
                }
            },
        }
    }
}

// ---------------------------------------------------------------------------
// Credentials

/// The address and the password of an account.
#[derive(Debug, PartialEq)]
pub struct Credentials {
    pub email: String,
    pub app_password: String,
}

/// What [`Credentials`] hold.
#[verifier::ext_equal]
pub struct CredentialsV {
    pub email: Seq<char>,
    pub app_password: Seq<char>,
}

impl View for Credentials {
    type V = CredentialsV;

    open spec fn view(&self) -> CredentialsV {
        CredentialsV { email: self.email@, app_password: self.app_password@ }
    }
}

impl Clone for Credentials {
    fn clone(&self) -> (r: Self)
        ensures
            r@ == self@,
    {
        Credentials { email: self.email.clone(), app_password: self.app_password.clone() }
    }
}

/// Credentials as they are written down: both entries are texts.
pub open spec fn credentials_of(
    email: Option<TomlItemV>,
    app_password: Option<TomlItemV>,
) -> Option<CredentialsV> {
    match (email, app_password) {
        (Some(TomlItemV::Text(email)), Some(TomlItemV::Text(app_password))) => Some(
            CredentialsV { email, app_password },
        ),
        _ => None,
    }
}

/// Credentials from the two entries of a document.
pub fn parse_credentials(email: Option<TomlItem>, app_password: Option<TomlItem>) -> (r: Option<
    Credentials,
>)
    ensures
        match r {
            Some(c) => credentials_of(item_view(email), item_view(app_password)) == Some(c@),
            None => credentials_of(item_view(email), item_view(app_password)) is None,
        },
{
    match (email, app_password) {
        (Some(TomlItem::Text(email)), Some(TomlItem::Text(app_password))) => Some(
            Credentials { email, app_password },
        ),
        _ => None,
    }
}

/// Credentials as a document gives them.
pub open spec fn written_credentials(document: Seq<char>) -> Option<CredentialsV> {
    credentials_of(top_item(document, "email"@), top_item(document, "app_password"@))
}

/// Reads credentials as they are written down.
pub fn read_credentials(document: &str) -> (r: Option<Credentials>)
    ensures
        match r {
            Some(c) => written_credentials(document@) == Some(c@),
            None => written_credentials(document@) is None,
        },
{
    let email: Option<TomlItem> = toml_key(document, "email");
    let app_password: Option<TomlItem> = toml_key(document, "app_password");
    parse_credentials(email, app_password)
}

/// Credentials with the password replaced by what it resolves to.
pub open spec fn with_secret(
    written: Option<CredentialsV>,
    secret: Result<Seq<char>, Seq<char>>,
) -> Result<CredentialsV, Seq<char>> {
    match (written, secret) {
        (None, _) => Err("Failed to parse credentials.toml"@),
        (Some(c), Ok(app_password)) => Ok(CredentialsV { email: c.email, app_password }),
        (Some(_), Err(_)) => Err("Failed to resolve app_password"@),
    }
}

/// What credentials or an error hold.
pub open spec fn credentials_result(r: Result<Credentials, String>) -> Result<
    CredentialsV,
    Seq<char>,
> {
    match r {
        Ok(c) => Ok(c@),
        Err(e) => Err(e@),
    }
}

/// Loads credentials from a document, with a resolver of secrets. The resolver is asked for
/// the password as it is written, and only where the document has both entries.
pub fn load_credentials_with_resolver<R: SecretResolver>(document: &str, resolver: &R) -> (r:
    Result<Credentials, String>)
    ensures
        match written_credentials(document@) {
            None => credentials_result(r) == with_secret(None, Err(Seq::empty())),
            Some(c) => exists|value: &str, secret: Result<String, String>|
                {
                    &&& value@ == c.app_password
                    &&& #[trigger] call_ensures(R::resolve, (resolver, value), secret)
                    &&& credentials_result(r) == with_secret(Some(c), result_text(secret))
                },
        },
{
    match read_credentials(document) {
        None => Err("Failed to parse credentials.toml".to_owned()),
        Some(c) => {
            let value: &str = c.app_password.as_str();
            let secret: Result<String, String> = resolver.resolve(value);
            assert(call_ensures(R::resolve, (resolver, value), secret));
            match secret {
                Ok(app_password) => Ok(Credentials { email: c.email.clone(), app_password }),
                Err(_) => Err("Failed to resolve app_password".to_owned()),
            }
        },
    }
}

/// Loads credentials from a document.
pub fn load_credentials(document: &str, resolver: &OpSecretResolver) -> (r: Result<
    Credentials,
    String,
>)
    ensures
        credentials_result(r) == with_secret(
            written_credentials(document@),
            match written_credentials(document@) {
                Some(c) => resolved(c.app_password, resolver.output),
                None => Err(Seq::empty()),
            },
        ),
{
    load_credentials_with_resolver(document, resolver)
}

// ---------------------------------------------------------------------------
// Accounts and settings

/// An account.
#[derive(Debug, PartialEq)]
pub struct AccountConfig {
    pub email: String,
    pub app_password: String,
}

impl View for AccountConfig {
    type V = CredentialsV;

    open spec fn view(&self) -> CredentialsV {
        CredentialsV { email: self.email@, app_password: self.app_password@ }
    }
}

impl Clone for AccountConfig {
    fn clone(&self) -> (r: Self)
        ensures
            r@ == self@,
    {
        AccountConfig { email: self.email.clone(), app_password: self.app_password.clone() }
    }
}

/// An account with its name.
pub type Named = (String, AccountConfig);

/// What accounts with their names hold.
pub open spec fn named_views(v: Seq<Named>) -> Seq<(Seq<char>, CredentialsV)> {
    v.map_values(|a: Named| (a.0@, a.1@))
}

impl Ranked for (String, AccountConfig) {
    open spec fn ranks_ahead(self, other: Self) -> bool {
        text_less(lowercase(self.0@), lowercase(other.0@))
    }

    fn is_ahead(&self, other: &Self) -> (r: bool) {
        less(to_lower(self.0.as_str()).as_str(), to_lower(other.0.as_str()).as_str())
    }
}

/// The accounts in the order of their names, whatever the case of the letters.
pub fn sorted_accounts(accounts: Vec<Named>) -> (r: Vec<Named>)
    ensures
        r@ == ordered(by_rank::<Named>(), accounts@),
{
    order(accounts)
}

/// Sorting accounts by name puts their names in order and keeps every account.
pub proof fn law_accounts_are_sorted(accounts: Seq<Named>)
    ensures
        forall|i: int, j: int|
            0 <= i < j < ordered(by_rank::<Named>(), accounts).len() ==> !text_less(
                lowercase((#[trigger] ordered(by_rank::<Named>(), accounts)[j]).0@),
                lowercase((#[trigger] ordered(by_rank::<Named>(), accounts)[i]).0@),
            ),
        ordered(by_rank::<Named>(), accounts).to_multiset() == accounts.to_multiset(),
{
    let before = by_rank::<Named>();
    assert(is_order(before)) by {
        assert forall|a: Named, b: Named| #[trigger] before(a, b) implies !before(b, a) by {
            law_text_less(lowercase(a.0@), lowercase(b.0@), lowercase(b.0@));
        }
        assert forall|a: Named, b: Named, c: Named| #[trigger] before(a, c) implies (
        #[trigger] before(a, b)) || before(b, c) by {
            law_text_less(lowercase(a.0@), lowercase(b.0@), lowercase(c.0@));
        }
    }
    if accounts.len() > 0 {
        law_ordered(before, accounts, accounts[0]);
        assert forall|i: int, j: int|
            0 <= i < j < ordered(before, accounts).len() implies !text_less(
            lowercase((#[trigger] ordered(before, accounts)[j]).0@),
            lowercase((#[trigger] ordered(before, accounts)[i]).0@),
        ) by {
            assert(!before(ordered(before, accounts)[j], ordered(before, accounts)[i]));
        }
    }
}

/// The names of the accounts, from what stands at the key of the accounts.
pub open spec fn names_of(item: Option<TomlItemV>) -> Result<Seq<Seq<char>>, Seq<char>> {
    match item {
        None => Err("Failed to parse config.toml"@),
        Some(TomlItemV::Table(names)) => Ok(names),
        Some(_) => Err("No accounts in config"@),
    }
}

/// The names of the accounts, from what stands at the key of the accounts.
pub fn parse_names(item: Option<TomlItem>) -> (r: Result<Vec<String>, String>)
    ensures
        match r {
            Ok(names) => names_of(item_view(item)) == Ok::<Seq<Seq<char>>, Seq<char>>(texts(names@)),
            Err(e) => names_of(item_view(item)) == Err::<Seq<Seq<char>>, Seq<char>>(e@),
        },
{
    match item {
        None => Err("Failed to parse config.toml".to_owned()),
        Some(TomlItem::Table(names)) => Ok(names),
        Some(_) => Err("No accounts in config".to_owned()),
    }
}

/// The names of the accounts in a document.
pub fn account_names(document: &str) -> (r: Result<Vec<String>, String>)
    ensures
        match r {
            Ok(names) => names_of(top_item(document@, "accounts"@)) == Ok::<
                Seq<Seq<char>>,
                Seq<char>,
            >(texts(names@)),
            Err(e) => names_of(top_item(document@, "accounts"@)) == Err::<
                Seq<Seq<char>>,
                Seq<char>,
            >(e@),
        },
{
    parse_names(toml_key(document, "accounts"))
}

/// An account, from what stands at its two keys.
pub open spec fn account_of(email: Option<TomlItemV>, app_password: Option<TomlItemV>) -> Result<
    CredentialsV,
    Seq<char>,
> {
    match (email, app_password) {
        (Some(TomlItemV::Text(email)), Some(TomlItemV::Text(app_password))) => Ok(
            CredentialsV { email, app_password },
        ),
        (Some(TomlItemV::Text(_)), _) => Err("Missing app_password"@),
        _ => Err("Missing email"@),
    }
}

/// What an account or an error holds.
pub open spec fn account_result(r: Result<AccountConfig, String>) -> Result<CredentialsV, Seq<char>> {
    match r {
        Ok(c) => Ok(c@),
        Err(e) => Err(e@),
    }
}

/// An account, from what stands at its two keys.
pub fn parse_account(email: Option<TomlItem>, app_password: Option<TomlItem>) -> (r: Result<
    AccountConfig,
    String,
>)
    ensures
        account_result(r) == account_of(item_view(email), item_view(app_password)),
{
    match (email, app_password) {
        (Some(TomlItem::Text(email)), Some(TomlItem::Text(app_password))) => Ok(
            AccountConfig { email, app_password },
        ),
        (Some(TomlItem::Text(_)), _) => Err("Missing app_password".to_owned()),
        _ => Err("Missing email".to_owned()),
    }
}

/// An account in a document.
pub open spec fn written_account(document: Seq<char>, name: Seq<char>) -> Result<
    CredentialsV,
    Seq<char>,
> {
    account_of(
        toml_item(document, seq!["accounts"@, name, "email"@]),
        toml_item(document, seq!["accounts"@, name, "app_password"@]),
    )
}

fn toml_account_key(document: &str, name: &str, key: &str) -> (r: Option<TomlItem>)
    ensures
        item_view(r) == toml_item(document@, seq!["accounts"@, name@, key@]),
{
    let mut path: Vec<String> = Vec::new();
    path.push("accounts".to_owned());
    path.push(name.to_owned());
    path.push(key.to_owned());
    assert(texts(path@) =~= seq!["accounts"@, name@, key@]);
    toml_at(document, &path)
}

/// Reads an account as it is written down.
pub fn read_account(document: &str, name: &str) -> (r: Result<AccountConfig, String>)
    ensures
        account_result(r) == written_account(document@, name@),
{
    let email: Option<TomlItem> = toml_account_key(document, name, "email");
    let app_password: Option<TomlItem> = toml_account_key(document, name, "app_password");
    parse_account(email, app_password)
}

/// The accounts and what the user has set.
pub struct Config {
    pub accounts: Vec<Named>,
    pub parallel_connections: usize,
    pub advance_on_select: bool,
    pub protect_threads: bool,
    pub debug: bool,
}

/// What a [`Config`] holds.
#[verifier::ext_equal]
pub struct ConfigV {
    pub accounts: Seq<(Seq<char>, CredentialsV)>,
    pub parallel_connections: int,
    pub advance_on_select: bool,
    pub protect_threads: bool,
    pub debug: bool,
}

impl View for Config {
    type V = ConfigV;

    open spec fn view(&self) -> ConfigV {
        ConfigV {
            accounts: named_views(self.accounts@),
            parallel_connections: self.parallel_connections as int,
            advance_on_select: self.advance_on_select,
            protect_threads: self.protect_threads,
            debug: self.debug,
        }
    }
}

/// The number of connections where nothing is set.
pub const DEFAULT_CONNECTIONS: usize = 5;

/// A number that is set, or the default.
pub open spec fn number_set(item: Option<TomlItemV>, default: usize) -> Option<int> {
    match item {
        Some(TomlItemV::Missing) => Some(default as int),
        Some(TomlItemV::Integer(n)) => if 0 <= n <= usize::MAX {
            Some(n as int)
        } else {
            None
        },
        _ => None,
    }
}

/// A number that is set, or the default; none where something else stands there.
pub fn parse_number(item: Option<TomlItem>, default: usize) -> (r: Option<usize>)
    ensures
        match r {
            Some(n) => number_set(item_view(item), default) == Some(n as int),
            None => number_set(item_view(item), default) is None,
        },
{
    match item {
        Some(TomlItem::Missing) => Some(default),
        Some(TomlItem::Integer(n)) => {
            if 0 <= n && n as u64 <= usize::MAX as u64 {
                Some(n as usize)
            } else {
                None
            }
        },
        _ => None,
    }
}

/// A flag that is set, or the default.
pub open spec fn flag_set(item: Option<TomlItemV>, default: bool) -> Option<bool> {
    match item {
        Some(TomlItemV::Missing) => Some(default),
        Some(TomlItemV::Boolean(b)) => Some(b),
        _ => None,
    }
}

/// A flag that is set, or the default; none where something else stands there.
pub fn parse_flag(item: Option<TomlItem>, default: bool) -> (r: Option<bool>)
    ensures
        r == flag_set(item_view(item), default),
{
    match item {
        Some(TomlItem::Missing) => Some(default),
        Some(TomlItem::Boolean(b)) => Some(b),
        _ => None,
    }
}

/// The accounts of some names, in a document; none where one of them is not complete.
pub open spec fn accounts_of(document: Seq<char>, names: Seq<Seq<char>>) -> Option<
    Seq<(Seq<char>, CredentialsV)>,
>
    decreases names.len(),
{
    if names.len() == 0 {
        Some(Seq::empty())
    } else {
        match (accounts_of(document, names.drop_last()), written_account(document, names.last())) {
            (Some(earlier), Ok(account)) => Some(earlier.push((names.last(), account))),
            _ => None,
        }
    }
}

fn read_accounts(document: &str, names: Vec<String>) -> (r: Option<Vec<Named>>)
    ensures
        match r {
            Some(accounts) => accounts_of(document@, texts(names@)) == Some(
                named_views(accounts@),
            ),
            None => accounts_of(document@, texts(names@)) is None,
        },
{
    let ghost all = texts(names@);
    let mut r: Vec<Named> = Vec::new();
    let mut complete: bool = true;
    assert(named_views(r@) =~= Seq::<(Seq<char>, CredentialsV)>::empty());
    for name in it: names
        invariant
            all == texts(it.seq()),
            complete ==> accounts_of(document@, all.take(it.index() as int)) == Some(
                named_views(r@),
            ),
            !complete ==> accounts_of(document@, all.take(it.index() as int)) is None,
    {
        let ghost before = named_views(r@);
        let ghost n = name@;
        proof {
            let i = it.index() as int;
            assert(all.take(i + 1).drop_last() =~= all.take(i));
            assert(all.take(i + 1).last() == n);
        }
        match read_account(document, name.as_str()) {
            Ok(account) => {
                let ghost a = account@;
                r.push((name, account));
                assert(named_views(r@) =~= before.push((n, a)));
            },
            Err(_) => {
                complete = false;
            },
        }
    }
    assert(all.take(all.len() as int) =~= all);
    if complete {
        Some(r)
    } else {
        None
    }
}

/// The accounts and the settings in a document; none where it is not well-formed.
pub open spec fn written_config(document: Seq<char>) -> Option<ConfigV> {
    let accounts = match names_of(top_item(document, "accounts"@)) {
        Ok(names) => accounts_of(document, names),
        Err(_) => None,
    };
    match (
        accounts,
        number_set(top_item(document, "parallel_connections"@), DEFAULT_CONNECTIONS),
        flag_set(top_item(document, "advance_on_select"@), true),
        flag_set(top_item(document, "protect_threads"@), true),
        flag_set(top_item(document, "debug"@), false),
    ) {
        (
            Some(accounts),
            Some(parallel_connections),
            Some(advance_on_select),
            Some(protect_threads),
            Some(debug),
        ) => Some(
            ConfigV {
                accounts,
                parallel_connections,
                advance_on_select,
                protect_threads,
                debug,
            },
        ),
        _ => None,
    }
}

/// Loads the accounts and the settings from a document.
pub fn load_config(document: &str) -> (r: Result<Config, String>)
    ensures
        match r {
            Ok(config) => written_config(document@) == Some(config@),
            Err(e) => written_config(document@) is None && e@ == "Failed to parse config.toml"@,
        },
{
    let accounts: Option<Vec<Named>> = match account_names(document) {
        Ok(names) => read_accounts(document, names),
        Err(_) => None,
    };
    let number: Option<usize> = parse_number(
        toml_key(document, "parallel_connections"),
        DEFAULT_CONNECTIONS,
    );
    let advance: Option<bool> = parse_flag(toml_key(document, "advance_on_select"), true);
    let protect: Option<bool> = parse_flag(toml_key(document, "protect_threads"), true);
    let log: Option<bool> = parse_flag(toml_key(document, "debug"), false);
    match (accounts, number, advance, protect, log) {
        (
            Some(accounts),
            Some(parallel_connections),
            Some(advance_on_select),
            Some(protect_threads),
            Some(debug),
        ) => Ok(
            Config { accounts, parallel_connections, advance_on_select, protect_threads, debug },
        ),
        _ => Err("Failed to parse config.toml".to_owned()),
    }
}

impl Config {
    /// What the user has set, as far as it bears on the keys.
    pub fn settings(&self) -> (r: Settings)
        ensures
            r.parallel_connections == self.parallel_connections,
            r.advance_on_select == self.advance_on_select,
            r.protect_threads == self.protect_threads,
    {
        Settings {
            parallel_connections: self.parallel_connections,
            advance_on_select: self.advance_on_select,
            protect_threads: self.protect_threads,
        }
    }
}

/// The first account.
pub fn get_default_account(config: &Config) -> (r: Result<&Named, String>)
    ensures
        match r {
            Ok(account) => config.accounts@.len() > 0 && *account == config.accounts@[0],
            Err(e) => config.accounts@.len() == 0 && e@ == "No accounts in config"@,
        },
{
    if config.accounts.len() > 0 {
        Ok(&config.accounts[0])
    } else {
        Err("No accounts in config".to_owned())
    }
}

} // verus!
