//! Models, and the configuration of a run.
use crate::cli::Cli;
use crate::errors::{AppError, AppErrorV};
use crate::json::{Json, JsonV};
use crate::text::{
    after_prefix, clone_opt, join, join3, law_prefix_is_taken_off, law_splitting_at_the_first,
    lemma_find_is, same, split_at_first, split_once, starts_with_char, strip_prefix, view_opt,
    view_res, views,
};
use vstd::prelude::*;

verus! {

// ---------------------------------------------------------------------------
// Models
// ---------------------------------------------------------------------------
/// Who offers a model.
#[derive(Copy, Clone, Debug, PartialEq, Eq, Structural)]
pub enum Provider {
    DeepSeek,
    OpenAI,
    Anthropic,
}

/// The protocol that a model speaks.
#[derive(Copy, Clone, Debug, PartialEq, Eq, Structural)]
pub enum Dialect {
    ChatCompletions,
    Responses,
    AnthropicMessages,
}

/// The protocol of a provider where none is named.
pub open spec fn default_dialect(p: Provider) -> Dialect {
    match p {
        Provider::DeepSeek => Dialect::ChatCompletions,
        Provider::OpenAI => Dialect::ChatCompletions,
        Provider::Anthropic => Dialect::AnthropicMessages,
    }
}

/// The name of a provider in the configuration.
pub open spec fn provider_name(p: Provider) -> Seq<char> {
    match p {
        Provider::DeepSeek => "deepseek"@,
        Provider::OpenAI => "openai"@,
        Provider::Anthropic => "anthropic"@,
    }
}

/// The provider with a name.
pub open spec fn named_provider(s: Seq<char>) -> Option<Provider> {
    if s == "deepseek"@ {
        Some(Provider::DeepSeek)
    } else if s == "openai"@ {
        Some(Provider::OpenAI)
    } else if s == "anthropic"@ {
        Some(Provider::Anthropic)
    } else {
        None
    }
}

impl Provider {
    /// The protocol of the provider where none is named.
    pub fn default_dialect(self) -> (r: Dialect)
        ensures
            r == default_dialect(self),
    {
        match self {
            Provider::DeepSeek => Dialect::ChatCompletions,
            Provider::OpenAI => Dialect::ChatCompletions,
            Provider::Anthropic => Dialect::AnthropicMessages,
        }
    }

    /// The name of the provider.
    pub fn as_str(self) -> (r: &'static str)
        ensures
            r@ == provider_name(self),
    {
        match self {
            Provider::DeepSeek => "deepseek",
            Provider::OpenAI => "openai",
            Provider::Anthropic => "anthropic",
        }
    }

    /// The provider with a name.
    pub fn parse(s: &str) -> (r: Option<Provider>)
        ensures
            r == named_provider(s@),
    {
        if same(s, "deepseek") {
            Some(Provider::DeepSeek)
        } else if same(s, "openai") {
            Some(Provider::OpenAI)
        } else if same(s, "anthropic") {
            Some(Provider::Anthropic)
        } else {
            None
        }
    }
}

pub ghost struct ModelV {
    pub provider: Provider,
    pub dialect: Dialect,
    pub api_id: Seq<char>,
}

/// A model: its provider, the protocol it speaks, and its name in a request.
#[derive(Debug)]
pub struct Model {
    pub provider: Provider,
    pub dialect: Dialect,
    pub api_id: String,
}

impl View for Model {
    type V = ModelV;

    open spec fn view(&self) -> ModelV {
        ModelV { provider: self.provider, dialect: self.dialect, api_id: self.api_id@ }
    }
}

impl Clone for Model {
    fn clone(&self) -> (r: Model)
        ensures
            r@ == self@,
    {
        Model { provider: self.provider, dialect: self.dialect, api_id: self.api_id.clone() }
    }
}

impl PartialEq for Model {
    fn eq(&self, other: &Model) -> (r: bool) {
        self.provider == other.provider && self.dialect == other.dialect && self.api_id
            == other.api_id
    }
}

impl vstd::std_specs::cmp::PartialEqSpecImpl for Model {
    open spec fn obeys_eq_spec() -> bool {
        true
    }

    open spec fn eq_spec(&self, other: &Model) -> bool {
        self@ == other@
    }
}

/// The built-in model that is fast and cheap, which is the default.
pub open spec fn flash() -> ModelV {
    ModelV {
        provider: Provider::DeepSeek,
        dialect: Dialect::ChatCompletions,
        api_id: "deepseek-v4-flash"@,
    }
}

/// The built-in model that reasons better over several steps.
pub open spec fn pro() -> ModelV {
    ModelV {
        provider: Provider::DeepSeek,
        dialect: Dialect::ChatCompletions,
        api_id: "deepseek-v4-pro"@,
    }
}

/// The model that a text in the configuration names: a built-in model by its
/// bare name, or a provider and the name of a model with a slash between them.
pub open spec fn named_model(s: Seq<char>) -> Option<ModelV> {
    if s == "deepseek-v4-flash"@ {
        Some(flash())
    } else if s == "deepseek-v4-pro"@ {
        Some(pro())
    } else {
        match split_at_first(s, '/') {
            Some(parts) => match named_provider(parts.0) {
                Some(provider) => if parts.1.len() > 0 {
                    Some(ModelV { provider, dialect: default_dialect(provider), api_id: parts.1 })
                } else {
                    None
                },
                None => None,
            },
            None => None,
        }
    }
}

/// The text that names a model: the bare name of a built-in model, and
/// otherwise the provider and the name with a slash between them.
pub open spec fn model_name(m: ModelV) -> Seq<char> {
    if m == flash() || m == pro() {
        m.api_id
    } else {
        provider_name(m.provider) + "/"@ + m.api_id
    }
}

/// The model is one that the configuration can name: it has a name in a
/// request and speaks the protocol of its provider.
pub open spec fn nameable(m: ModelV) -> bool {
    m.api_id.len() > 0 && m.dialect == default_dialect(m.provider)
}

/// The `Debug` form of a string: in quotes, with what needs it escaped.
pub uninterp spec fn quoted(s: Seq<char>) -> Seq<char>;

/// `format!("{:?}", s)` of a string.
#[verifier::external_body]
fn quote(s: &str) -> (r: String)
    ensures
        r@ == quoted(s@),
{
    format!("{:?}", s)
}

/// The message for a text that names no model.
pub open spec fn bad_model_text(s: Seq<char>) -> Seq<char> {
    "非法 model "@ + quoted(s)
        + ". 合法形式: deepseek-v4-flash | deepseek-v4-pro | <provider>/<model-id> (provider ∈ deepseek|openai|anthropic)"@
}

impl Model {
    /// The built-in model that is fast and cheap.
    pub fn deepseek_v4_flash() -> (r: Model)
        ensures
            r@ == flash(),
    {
        Model {
            provider: Provider::DeepSeek,
            dialect: Dialect::ChatCompletions,
            api_id: "deepseek-v4-flash".to_owned(),
        }
    }

    /// The built-in model that reasons better over several steps.
    pub fn deepseek_v4_pro() -> (r: Model)
        ensures
            r@ == pro(),
    {
        Model {
            provider: Provider::DeepSeek,
            dialect: Dialect::ChatCompletions,
            api_id: "deepseek-v4-pro".to_owned(),
        }
    }

    /// The name of the model in a request.
    pub fn api_id(&self) -> (r: &str)
        ensures
            r@ == self@.api_id,
    {
        self.api_id.as_str()
    }

    /// The model that a text names.
    pub fn parse(s: &str) -> (r: Result<Model, AppError>)
        ensures
            match r {
                Ok(m) => named_model(s@) == Some(m@),
                Err(e) => named_model(s@) is None && e@ == AppErrorV::Config(bad_model_text(s@)),
            },
    {
        if same(s, "deepseek-v4-flash") {
            return Ok(Model::deepseek_v4_flash());
        }
        if same(s, "deepseek-v4-pro") {
            return Ok(Model::deepseek_v4_pro());
        }
        if let Some((prov, id)) = split_once(s, '/') {
            if let Some(provider) = Provider::parse(prov.as_str()) {
                if !id.as_str().is_empty() {
                    return Ok(Model { provider, dialect: provider.default_dialect(), api_id: id });
                }
            }
        }
        Err(
            AppError::Config(
                join3(
                    "非法 model ",
                    quote(s).as_str(),
                    ". 合法形式: deepseek-v4-flash | deepseek-v4-pro | <provider>/<model-id> (provider ∈ deepseek|openai|anthropic)",
                ),
            ),
        )
    }

    /// The text that names the model.
    pub fn render(&self) -> (r: String)
        ensures
            r@ == model_name(self@),
    {
        let built_in = self.provider == Provider::DeepSeek && self.dialect
            == Dialect::ChatCompletions && (same(self.api_id.as_str(), "deepseek-v4-flash") || same(
            self.api_id.as_str(),
            "deepseek-v4-pro",
        ));
        if built_in {
            self.api_id.clone()
        } else {
            join3(self.provider.as_str(), "/", self.api_id.as_str())
        }
    }

    /// The model as JSON: the text that names it.
    pub fn to_json(&self) -> (r: Json)
        ensures
            r@ == JsonV::Text(model_name(self@)),
    {
        Json::Text(self.render())
    }

    /// Reads a model from JSON.
    pub fn from_json(j: &Json) -> (r: Result<Model, String>)
        ensures
            view_res(r) == json_model(j@),
    {
        match j {
            Json::Text(s) => match Model::parse(s.as_str()) {
                Ok(m) => Ok(m),
                Err(e) => Err(e.message()),
            },
            _ => Err("invalid type for a model".to_owned()),
        }
    }
}

/// The model that JSON stands for, or what is wrong with it.
pub open spec fn json_model(j: JsonV) -> Result<ModelV, Seq<char>> {
    match j {
        JsonV::Text(s) => match named_model(s) {
            Some(m) => Ok(m),
            None => Err("配置错误: "@ + bad_model_text(s)),
        },
        _ => Err("invalid type for a model"@),
    }
}

impl Default for Model {
    fn default() -> (r: Model)
        ensures
            r@ == flash(),
    {
        Model::deepseek_v4_flash()
    }
}

/// Every model that the configuration can name is named by its own text.
pub proof fn law_model_read_back(m: ModelV)
    requires
        nameable(m),
    ensures
        named_model(model_name(m)) == Some(m),
{
    reveal_strlit("deepseek-v4-flash");
    reveal_strlit("deepseek-v4-pro");
    reveal_strlit("deepseek");
    reveal_strlit("openai");
    reveal_strlit("anthropic");
    reveal_strlit("/");
    assert("deepseek-v4-flash"@.len() != "deepseek-v4-pro"@.len());
    if m != flash() && m != pro() {
        let name = provider_name(m.provider);
        let s = model_name(m);
        let k = name.len() as int;
        assert(s[k] == '/');
        assert forall|i: int| 0 <= i < k implies s[i] != '/' by {
            assert(s[i] == name[i]);
        }
        lemma_find_is(s, '/', k);
        assert(s.subrange(0, k) =~= name);
        assert(s.subrange(k + 1, s.len() as int) =~= m.api_id);
        assert("deepseek-v4-flash"@[k] != '/');
        assert("deepseek-v4-pro"@[k] != '/');
        assert(s != "deepseek-v4-flash"@);
        assert(s != "deepseek-v4-pro"@);
        assert("openai"@.len() == 6 && "deepseek"@.len() == 8 && "anthropic"@.len() == 9);
    }
}

/// What the configuration names is nameable, so its text names it again.
pub proof fn law_named_models_are_nameable(s: Seq<char>)
    ensures
        named_model(s) matches Some(m) ==> nameable(m),
{
    reveal_strlit("deepseek-v4-flash");
    reveal_strlit("deepseek-v4-pro");
}

// ---------------------------------------------------------------------------
// Paths
// ---------------------------------------------------------------------------
/// What a path names: from where it leads, and through which names.
pub ghost struct PlaceV {
    pub rooted: bool,
    pub names: Seq<Seq<char>>,
}

/// The pieces of a text between slashes.
pub open spec fn pieces(s: Seq<char>) -> Seq<Seq<char>>
    decreases s.len(),
    via pieces_decreases
{
    match split_at_first(s, '/') {
        None => seq![s],
        Some((first, rest)) => seq![first] + pieces(rest),
    }
}

#[via_fn]
proof fn pieces_decreases(s: Seq<char>) {
    crate::text::lemma_find(s, '/');
}

/// The names among the pieces of a path: an empty piece is none, and neither is
/// a `.` that does not stand at the very beginning.
pub open spec fn names_in(s: Seq<Seq<char>>) -> Seq<Seq<char>>
    decreases s.len(),
{
    if s.len() == 0 {
        seq![]
    } else {
        let rest = names_in(s.drop_last());
        if s.last().len() == 0 || (s.last() == "."@ && s.len() > 1) {
            rest
        } else {
            rest.push(s.last())
        }
    }
}

/// What a path names: repeated slashes, a slash at the end and a `.` within do
/// not matter.
pub open spec fn target_of(path: Seq<char>) -> PlaceV {
    PlaceV { rooted: path.len() > 0 && path[0] == '/', names: names_in(pieces(path)) }
}

fn split_path(path: &str) -> (r: Vec<String>)
    ensures
        views(r@) == pieces(path@),
{
    let mut out: Vec<String> = Vec::new();
    let mut rest = path.to_owned();
    assert(views(out@) + pieces(rest@) =~= pieces(path@));
    loop
        invariant_except_break
            views(out@) + pieces(rest@) == pieces(path@),
        ensures
            views(out@) == pieces(path@),
        decreases rest@.len(),
    {
        let ghost known = views(out@);
        match split_once(rest.as_str(), '/') {
            None => {
                let ghost last = rest@;
                out.push(rest);
                assert(views(out@) =~= known + seq![last]);
                break;
            },
            Some((first, more)) => {
                proof {
                    crate::text::lemma_find(rest@, '/');
                    assert(known + (seq![first@] + pieces(more@)) =~= known.push(first@) + pieces(
                        more@,
                    ));
                }
                out.push(first);
                assert(views(out@) =~= known.push(first@));
                rest = more;
            },
        }
    }
    out
}

fn path_names(path: &str) -> (r: Vec<String>)
    ensures
        views(r@) == names_in(pieces(path@)),
{
    let all = split_path(path);
    let ghost whole = views(all@);
    let mut out: Vec<String> = Vec::new();
    let mut i: usize = 0;
    assert(whole.subrange(0, 0) =~= Seq::<Seq<char>>::empty());
    assert(views(out@) =~= Seq::<Seq<char>>::empty());
    while i < all.len()
        invariant
            i <= all@.len(),
            whole == views(all@),
            views(out@) == names_in(whole.subrange(0, i as int)),
        decreases all@.len() - i,
    {
        let name = all[i].as_str();
        proof {
            let pre = whole.subrange(0, i + 1);
            assert(pre.drop_last() =~= whole.subrange(0, i as int));
            assert(pre.last() == name@);
        }
        if !(name.is_empty() || (same(name, ".") && i > 0)) {
            let ghost known = views(out@);
            out.push(all[i].clone());
            assert(views(out@) =~= known.push(name@));
        }
        i = i + 1;
    }
    assert(whole.subrange(0, i as int) =~= whole);
    out
}

/// Decides whether two paths name the same.
pub fn same_path(a: &str, b: &str) -> (r: bool)
    ensures
        r == (target_of(a@) == target_of(b@)),
{
    if starts_with_char(a, '/') != starts_with_char(b, '/') {
        return false;
    }
    let x = path_names(a);
    let y = path_names(b);
    if x.len() != y.len() {
        assert(views(x@).len() != views(y@).len());
        return false;
    }
    let mut i: usize = 0;
    while i < x.len()
        invariant
            i <= x@.len() == y@.len(),
            views(x@) == names_in(pieces(a@)),
            views(y@) == names_in(pieces(b@)),
            forall|j: int| 0 <= j < i ==> (#[trigger] x@[j])@ == y@[j]@,
        decreases x@.len() - i,
    {
        if !same(x[i].as_str(), y[i].as_str()) {
            assert(views(x@)[i as int] != views(y@)[i as int]);
            return false;
        }
        i = i + 1;
    }
    assert(views(x@) =~= views(y@));
    true
}

/// A path below a directory: an absolute path stands for itself.
pub open spec fn below(dir: Seq<char>, path: Seq<char>) -> Seq<char> {
    if dir.len() == 0 || (path.len() > 0 && path[0] == '/') {
        path
    } else if dir.last() == '/' {
        dir + path
    } else {
        dir + "/"@ + path
    }
}

/// The path below a directory.
pub fn join_path(dir: &str, path: &str) -> (r: String)
    ensures
        r@ == below(dir@, path@),
{
    if dir.is_empty() || starts_with_char(path, '/') {
        path.to_owned()
    } else {
        match crate::text::strip_suffix_char(dir, '/') {
            Some(_) => join(dir, path),
            None => join3(dir, "/", path),
        }
    }
}

/// The path that a text in the configuration stands for: a leading `~/` stands
/// for the home directory, where that is known.
pub open spec fn expanded(s: Seq<char>, home: Option<Seq<char>>) -> Seq<char> {
    match (after_prefix(s, "~/"@), home) {
        (Some(rest), Some(dir)) => below(dir, rest),
        _ => s,
    }
}

/// Replaces a leading `~/` by the home directory.
pub fn expand_tilde(s: &str, home: &Option<String>) -> (r: String)
    ensures
        r@ == expanded(s@, view_opt(*home)),
{
    if let Some(rest) = strip_prefix(s, "~/") {
        if let Some(dir) = home {
            return join_path(dir.as_str(), rest.as_str());
        }
    }
    s.to_owned()
}

/// Where sessions are kept by default.
pub open spec fn default_sessions(data_dir: Option<Seq<char>>) -> Seq<char> {
    match data_dir {
        Some(dir) => below(dir, "edocrs/sessions"@),
        None => ".edocrs/sessions"@,
    }
}

/// Where sessions are kept by default, given the directory for local data.
pub fn default_session_dir(data_dir: &Option<String>) -> (r: String)
    ensures
        r@ == default_sessions(view_opt(*data_dir)),
{
    match data_dir {
        Some(dir) => join_path(dir.as_str(), "edocrs/sessions"),
        None => ".edocrs/sessions".to_owned(),
    }
}

// ---------------------------------------------------------------------------
// The configuration
// ---------------------------------------------------------------------------
/// What the environment variables `DEEPSEEK_API_KEY`, `DEEPSEEK_BASE_URL` and
/// `EDOCRS_MODEL` hold.
#[derive(Debug)]
pub struct EnvConfig {
    pub api_key: Option<String>,
    pub base_url: Option<String>,
    pub model: Option<String>,
}

/// What the file `config.toml` holds.
#[derive(Debug)]
pub struct TomlConfig {
    pub api_key: Option<String>,
    pub base_url: Option<String>,
    pub model: Option<String>,
    pub max_tool_output_bytes: Option<usize>,
    pub session_dir: Option<String>,
}

/// The directories of the user, where they are known.
#[derive(Debug)]
pub struct UserDirs {
    pub home: Option<String>,
    pub data_local: Option<String>,
}

impl Default for TomlConfig {
    fn default() -> (r: TomlConfig)
        ensures
            r == (TomlConfig {
                api_key: None,
                base_url: None,
                model: None,
                max_tool_output_bytes: None,
                session_dir: None,
            }),
    {
        TomlConfig {
            api_key: None,
            base_url: None,
            model: None,
            max_tool_output_bytes: None,
            session_dir: None,
        }
    }
}

/// The configuration of a run.
#[derive(Debug)]
pub struct Config {
    pub api_key: String,
    pub base_url: String,
    pub model: Model,
    pub max_tool_output_bytes: usize,
    pub session_dir: String,
}

pub ghost struct ConfigV {
    pub api_key: Seq<char>,
    pub base_url: Seq<char>,
    pub model: ModelV,
    pub max_tool_output_bytes: usize,
    pub session_dir: Seq<char>,
}

impl View for Config {
    type V = ConfigV;

    open spec fn view(&self) -> ConfigV {
        ConfigV {
            api_key: self.api_key@,
            base_url: self.base_url@,
            model: self.model@,
            max_tool_output_bytes: self.max_tool_output_bytes,
            session_dir: self.session_dir@,
        }
    }
}

/// The first of two sources that has a value.
pub open spec fn first_of(a: Option<String>, b: Option<String>) -> Option<Seq<char>> {
    match a {
        Some(s) => Some(s@),
        None => view_opt(b),
    }
}

/// The first of three sources that has a value.
pub open spec fn first_of3(a: Option<String>, b: Option<String>, c: Option<String>) -> Option<
    Seq<char>,
> {
    match a {
        Some(s) => Some(s@),
        None => first_of(b, c),
    }
}

fn pick(a: &Option<String>, b: &Option<String>, c: &Option<String>) -> (r: Option<String>)
    ensures
        view_opt(r) == first_of3(*a, *b, *c),
{
    match a {
        Some(s) => Some(s.clone()),
        None => match b {
            Some(s) => Some(s.clone()),
            None => clone_opt(c),
        },
    }
}

/// The message for a configuration without an API key.
pub open spec fn no_key_text() -> Seq<char> {
    "缺少 api_key. 请通过 --api-key, DEEPSEEK_API_KEY 环境变量, 或 config.toml 提供."@
}

/// The configuration that the sources give together. The command line goes
/// before the environment, the environment before the file, and the file
/// before the defaults. An API key has no default, and the text that the first
/// source names must name a model.
pub open spec fn merged(cli: Cli, env: EnvConfig, toml: TomlConfig, dirs: UserDirs) -> Result<
    ConfigV,
    AppErrorV,
> {
    match first_of3(cli.api_key, env.api_key, toml.api_key) {
        None => Err(AppErrorV::Config(no_key_text())),
        Some(api_key) => {
            let model = match first_of3(cli.model, env.model, toml.model) {
                None => Ok(flash()),
                Some(s) => match named_model(s) {
                    Some(m) => Ok(m),
                    None => Err(AppErrorV::Config(bad_model_text(s))),
                },
            };
            match model {
                Err(e) => Err(e),
                Ok(model) => Ok(
                    ConfigV {
                        api_key,
                        base_url: match first_of3(cli.base_url, env.base_url, toml.base_url) {
                            Some(s) => s,
                            None => "https://api.deepseek.com"@,
                        },
                        model,
                        max_tool_output_bytes: match toml.max_tool_output_bytes {
                            Some(n) => n,
                            None => 50_000,
                        },
                        session_dir: match toml.session_dir {
                            Some(s) => expanded(s@, view_opt(dirs.home)),
                            None => default_sessions(view_opt(dirs.data_local)),
                        },
                    },
                ),
            }
        },
    }
}

impl Config {
    /// Puts the sources of the configuration together.
    pub fn merge(cli: &Cli, env: &EnvConfig, toml: &TomlConfig, dirs: &UserDirs) -> (r: Result<
        Config,
        AppError,
    >)
        ensures
            view_res(r) == merged(*cli, *env, *toml, *dirs),
    {
        let api_key = match pick(&cli.api_key, &env.api_key, &toml.api_key) {
            Some(s) => s,
            None => {
                return Err(
                    AppError::Config(
                        "缺少 api_key. 请通过 --api-key, DEEPSEEK_API_KEY 环境变量, 或 config.toml 提供.".to_owned(),
                    ),
                );
            },
        };
        let base_url = match pick(&cli.base_url, &env.base_url, &toml.base_url) {
            Some(s) => s,
            None => "https://api.deepseek.com".to_owned(),
        };
        let model = match pick(&cli.model, &env.model, &toml.model) {
            None => Model::default(),
            Some(s) => match Model::parse(s.as_str()) {
                Ok(m) => m,
                Err(e) => {
                    return Err(e);
                },
            },
        };
        let max_tool_output_bytes: usize = match toml.max_tool_output_bytes {
            Some(n) => n,
            None => 50_000,
        };
        let session_dir = match &toml.session_dir {
            Some(s) => expand_tilde(s.as_str(), &dirs.home),
            None => default_session_dir(&dirs.data_local),
        };
        Ok(Config { api_key, base_url, model, max_tool_output_bytes, session_dir })
    }

    /// The configuration that the environment alone gives.
    pub fn load_from_env_only(env: &EnvConfig, dirs: &UserDirs) -> (r: Result<Config, AppError>)
        ensures
            view_res(r) == merged(
                (Cli { api_key: None, base_url: None, model: None, resume: None, yolo: false }),
                *env,
                (TomlConfig {
                    api_key: None,
                    base_url: None,
                    model: None,
                    max_tool_output_bytes: None,
                    session_dir: None,
                }),
                *dirs,
            ),
    {
        let cli = Cli { api_key: None, base_url: None, model: None, resume: None, yolo: false };
        Config::merge(&cli, env, &TomlConfig::default(), dirs)
    }
}

/// What the command line gives takes effect whatever the environment and the
/// file say, and what the environment gives whatever the file says.
pub proof fn law_earlier_sources_win(
    cli: Cli,
    env: EnvConfig,
    toml: TomlConfig,
    other_env: EnvConfig,
    other_toml: TomlConfig,
    dirs: UserDirs,
)
    requires
        other_toml.max_tool_output_bytes == toml.max_tool_output_bytes,
        other_toml.session_dir == toml.session_dir,
    ensures
        cli.api_key is Some && cli.base_url is Some && cli.model is Some ==> merged(
            cli,
            env,
            toml,
            dirs,
        ) == merged(cli, other_env, other_toml, dirs),
        env.api_key is Some && env.base_url is Some && env.model is Some ==> merged(
            cli,
            env,
            toml,
            dirs,
        ) == merged(cli, env, other_toml, dirs),
{
}

// ---------------------------------------------------------------------------
// What holds of the configuration
// ---------------------------------------------------------------------------
/// Where merging succeeds, each setting has the value of the first source that
/// gives one: the command line, then the environment, then the file; the default
/// stands only where none does.
pub proof fn law_settings_come_from_the_first_source(
    cli: Cli,
    env: EnvConfig,
    toml: TomlConfig,
    dirs: UserDirs,
)
    ensures
        merged(cli, env, toml, dirs) matches Ok(c) ==> {
            &&& match (cli.api_key, env.api_key, toml.api_key) {
                (Some(s), _, _) => c.api_key == s@,
                (None, Some(s), _) => c.api_key == s@,
                (None, None, Some(s)) => c.api_key == s@,
                (None, None, None) => false,
            }
            &&& match (cli.base_url, env.base_url, toml.base_url) {
                (Some(s), _, _) => c.base_url == s@,
                (None, Some(s), _) => c.base_url == s@,
                (None, None, Some(s)) => c.base_url == s@,
                (None, None, None) => c.base_url == "https://api.deepseek.com"@,
            }
            &&& match (cli.model, env.model, toml.model) {
                (Some(s), _, _) => named_model(s@) == Some(c.model),
                (None, Some(s), _) => named_model(s@) == Some(c.model),
                (None, None, Some(s)) => named_model(s@) == Some(c.model),
                (None, None, None) => named_model("deepseek-v4-flash"@) == Some(c.model),
            }
            &&& match toml.max_tool_output_bytes {
                Some(n) => c.max_tool_output_bytes == n,
                None => c.max_tool_output_bytes == 50_000,
            }
            &&& match toml.session_dir {
                Some(s) => c.session_dir == expanded(s@, view_opt(dirs.home)),
                None => c.session_dir == default_sessions(view_opt(dirs.data_local)),
            }
        },
{
}

/// Merging fails exactly where no source gives a key, or where the first source
/// that names a model does not name one that can be used; the message says which.
pub proof fn law_merging_fails_without_key_or_model(
    cli: Cli,
    env: EnvConfig,
    toml: TomlConfig,
    dirs: UserDirs,
    s: String,
)
    ensures
        cli.api_key is None && env.api_key is None && toml.api_key is None ==> merged(
            cli,
            env,
            toml,
            dirs,
        ) == Err::<ConfigV, AppErrorV>(AppErrorV::Config(no_key_text())),
        (cli.api_key is Some || env.api_key is Some || toml.api_key is Some) ==> {
            &&& (cli.model == Some(s) || (cli.model is None && env.model == Some(s)) || (cli.model
                is None && env.model is None && toml.model == Some(s))) ==> (if named_model(
                s@,
            ) is None {
                merged(cli, env, toml, dirs) == Err::<ConfigV, AppErrorV>(
                    AppErrorV::Config(bad_model_text(s@)),
                )
            } else {
                merged(cli, env, toml, dirs) is Ok
            })
            &&& cli.model is None && env.model is None && toml.model is None ==> merged(
                cli,
                env,
                toml,
                dirs,
            ) is Ok
        },
{
}

/// A model is named by one of two short names, or by its provider, a slash and
/// what it is called there, which may hold slashes too; no other text names one.
pub proof fn law_models_are_named(s: Seq<char>, id: Seq<char>)
    ensures
        named_model("deepseek-v4-flash"@) == Some(
            ModelV {
                provider: Provider::DeepSeek,
                dialect: Dialect::ChatCompletions,
                api_id: "deepseek-v4-flash"@,
            },
        ),
        named_model("deepseek-v4-pro"@) == Some(
            ModelV {
                provider: Provider::DeepSeek,
                dialect: Dialect::ChatCompletions,
                api_id: "deepseek-v4-pro"@,
            },
        ),
        id.len() > 0 ==> {
            &&& named_model("deepseek"@.push('/') + id) == Some(
                ModelV {
                    provider: Provider::DeepSeek,
                    dialect: Dialect::ChatCompletions,
                    api_id: id,
                },
            )
            &&& named_model("openai"@.push('/') + id) == Some(
                ModelV {
                    provider: Provider::OpenAI,
                    dialect: Dialect::ChatCompletions,
                    api_id: id,
                },
            )
            &&& named_model("anthropic"@.push('/') + id) == Some(
                ModelV {
                    provider: Provider::Anthropic,
                    dialect: Dialect::AnthropicMessages,
                    api_id: id,
                },
            )
        },
        named_model(s) matches Some(m) ==> {
            ||| s == "deepseek-v4-flash"@ || s == "deepseek-v4-pro"@
            ||| m.api_id.len() > 0 && (s == "deepseek"@.push('/') + m.api_id || s
                == "openai"@.push('/') + m.api_id || s == "anthropic"@.push('/') + m.api_id)
        },
{
    reveal_strlit("deepseek-v4-flash");
    reveal_strlit("deepseek-v4-pro");
    reveal_strlit("deepseek");
    reveal_strlit("openai");
    reveal_strlit("anthropic");
    law_splitting_at_the_first(s, '/');
    lemma_provider_splits("deepseek"@, id);
    lemma_provider_splits("openai"@, id);
    lemma_provider_splits("anthropic"@, id);
}

proof fn lemma_provider_splits(name: Seq<char>, id: Seq<char>)
    requires
        forall|i: int| 0 <= i < name.len() ==> name[i] != '/',
    ensures
        split_at_first(name.push('/') + id, '/') == Some((name, id)),
        (name.push('/') + id)[name.len() as int] == '/',
{
    let s = name.push('/') + id;
    lemma_find_is(s, '/', name.len() as int);
    assert(s.subrange(0, name.len() as int) =~= name);
    assert(s.subrange((name.len() + 1) as int, s.len() as int) =~= id);
}

/// A model is written as its short name where it has one, else as its provider, a
/// slash and what it is called there.
pub proof fn law_models_are_written_by_name(m: ModelV)
    ensures
        m == (ModelV {
            provider: Provider::DeepSeek,
            dialect: Dialect::ChatCompletions,
            api_id: "deepseek-v4-flash"@,
        }) ==> model_name(m) == "deepseek-v4-flash"@,
        m == (ModelV {
            provider: Provider::DeepSeek,
            dialect: Dialect::ChatCompletions,
            api_id: "deepseek-v4-pro"@,
        }) ==> model_name(m) == "deepseek-v4-pro"@,
        m.provider == Provider::OpenAI ==> model_name(m) == "openai/"@ + m.api_id,
        m.provider == Provider::Anthropic ==> model_name(m) == "anthropic/"@ + m.api_id,
        m.provider == Provider::DeepSeek && m.api_id != "deepseek-v4-flash"@ && m.api_id
            != "deepseek-v4-pro"@ ==> model_name(m) == "deepseek/"@ + m.api_id,
{
    reveal_strlit("/");
    reveal_strlit("deepseek");
    reveal_strlit("openai");
    reveal_strlit("anthropic");
    reveal_strlit("deepseek/");
    reveal_strlit("openai/");
    reveal_strlit("anthropic/");
    assert("openai"@ + "/"@ =~= "openai/"@);
    assert("anthropic"@ + "/"@ =~= "anthropic/"@);
    assert("deepseek"@ + "/"@ =~= "deepseek/"@);
}

/// A model is read from a string that names it, and from nothing else.
pub proof fn law_models_are_read_from_strings(j: JsonV, s: Seq<char>)
    ensures
        json_model(JsonV::Text(s)) == (match named_model(s) {
            Some(m) => Ok::<ModelV, Seq<char>>(m),
            None => Err("配置错误: "@ + bad_model_text(s)),
        }),
        !(j is Text) ==> json_model(j) is Err,
{
}

/// A path below a directory is the directory, one slash and the path; an absolute
/// path stays as it is, and so does any path below nothing.
pub proof fn law_paths_go_below_directories(dir: Seq<char>, path: Seq<char>)
    ensures
        dir.len() == 0 ==> below(dir, path) == path,
        path.len() > 0 && path[0] == '/' ==> below(dir, path) == path,
        dir.len() > 0 && !(path.len() > 0 && path[0] == '/') ==> {
            &&& dir.is_prefix_of(below(dir, path))
            &&& below(dir, path).subrange(
                below(dir, path).len() - path.len(),
                below(dir, path).len() as int,
            ) == path
            &&& below(dir, path).len() == dir.len() + path.len() + (if dir.last() == '/' {
                0nat
            } else {
                1
            })
            &&& below(dir, path)[below(dir, path).len() - path.len() - 1] == '/'
        },
{
    reveal_strlit("/");
    let r = below(dir, path);
    if dir.len() > 0 && !(path.len() > 0 && path[0] == '/') {
        assert(r.subrange(r.len() - path.len(), r.len() as int) =~= path);
    }
}

/// A path that begins with a tilde and a slash lies below the home directory,
/// where that is known; every other path is taken as it is.
pub proof fn law_tilde_is_the_home_directory(s: Seq<char>, rest: Seq<char>, home: Seq<char>)
    ensures
        expanded(seq!['~', '/'] + rest, Some(home)) == below(home, rest),
        expanded(s, None) == s,
        !(s.len() >= 2 && s[0] == '~' && s[1] == '/') ==> expanded(s, Some(home)) == s,
{
    reveal_strlit("~/");
    assert("~/"@ =~= seq!['~', '/']);
    law_prefix_is_taken_off(s, "~/"@, rest);
}

/// The sessions are kept below the data directory, or below the working directory
/// where there is none.
pub proof fn law_sessions_have_a_place(dir: Seq<char>)
    ensures
        default_sessions(Some(dir)) == below(dir, "edocrs/sessions"@),
        default_sessions(None) == ".edocrs/sessions"@,
{
}

/// The pieces of a path are what stands between its slashes.
pub proof fn law_slashes_part_paths(a: Seq<char>, b: Seq<char>)
    requires
        !a.contains('/'),
    ensures
        pieces(a) == seq![a],
        pieces(a.push('/') + b) == seq![a] + pieces(b),
{
    law_splitting_at_the_first(a, '/');
    assert forall|i: int| 0 <= i < a.len() implies a[i] != '/' by {
        assert(a.contains(a[i]));
    }
    match split_at_first(a, '/') {
        Some((x, _)) => {
            assert(a[x.len() as int] == '/');
        },
        None => {},
    }
    lemma_provider_splits(a, b);
}

/// The names in a path are its pieces in order, but for empty ones, and for a dot
/// that does not come first. Two paths lead to the same place exactly where they
/// have the same names and both or neither begin at the root.
pub proof fn law_places_are_roots_and_names(
    s: Seq<Seq<char>>,
    piece: Seq<char>,
    a: Seq<char>,
    b: Seq<char>,
)
    ensures
        names_in(seq![]) == Seq::<Seq<char>>::empty(),
        piece.len() == 0 ==> names_in(s.push(piece)) == names_in(s),
        piece == "."@ && s.len() > 0 ==> names_in(s.push(piece)) == names_in(s),
        piece == "."@ && s.len() == 0 ==> names_in(s.push(piece)) == seq!["."@],
        piece.len() > 0 && piece != "."@ ==> names_in(s.push(piece)) == names_in(s).push(piece),
        target_of(a) == target_of(b) <==> (names_in(pieces(a)) == names_in(pieces(b)) && (a.len() > 0
            && a[0] == '/' <==> b.len() > 0 && b[0] == '/')),
{
    reveal_strlit(".");
    assert(s.push(piece).drop_last() =~= s);
    if s.len() == 0 {
        assert(names_in(s) =~= Seq::<Seq<char>>::empty());
        assert(Seq::<Seq<char>>::empty().push("."@) =~= seq!["."@]);
    }
}

/// The messages say what to do about a missing key and about a model that is
/// none.
pub proof fn law_configuration_messages(s: Seq<char>)
    ensures
        no_key_text()
            == "缺少 api_key. 请通过 --api-key, DEEPSEEK_API_KEY 环境变量, 或 config.toml 提供."@,
        bad_model_text(s) == "非法 model "@ + quoted(s)
            + ". 合法形式: deepseek-v4-flash | deepseek-v4-pro | <provider>/<model-id> (provider ∈ deepseek|openai|anthropic)"@,
{
}

} // verus!
