//! Configuration: API key, directory layout, server settings, and the URLs
//! and paths derived from them.

use vstd::prelude::*;

use crate::error::Error;
use crate::models::{all_categories, dir_name_of, ItemCategory};
use crate::text::{
    decimal, decimal_string, has_elem, is_blank, join2, join3, owned, parse_u16, parsed_u16,
    str_eq, str_is_blank,
};

verus! {

broadcast use vstd::string::group_string_axioms;

/// Application configuration.
#[derive(Debug)]
pub struct Config {
    /// Gemini API settings.
    pub gemini: GeminiConfig,
    /// File system settings.
    pub fs: FileSystemConfig,
    /// Server settings.
    pub server: ServerConfig,
}

/// Gemini API settings.
#[derive(Debug, Clone)]
pub struct GeminiConfig {
    /// API key for the Gemini service.
    pub api_key: String,
    /// Base URL of the Gemini API.
    pub base_url: String,
    /// Model used for image generation.
    pub model: String,
    /// Request timeout in seconds.
    pub timeout_seconds: u64,
    /// Maximum retries of a failed request.
    pub max_retries: u32,
    /// Rate limit in requests per minute.
    pub rate_limit_rpm: u32,
}

/// File system settings. Paths use `/` as separator.
#[derive(Debug, Clone)]
pub struct FileSystemConfig {
    /// Base directory of all data.
    pub base_dir: String,
    /// Directory of user photos.
    pub input_dir: String,
    /// Directory of generated item images, one subdirectory per category.
    pub items_dir: String,
    /// Directory of remix outputs.
    pub output_dir: String,
    /// Maximum upload size in bytes.
    pub max_file_size: u64,
    /// Supported image MIME types.
    pub supported_formats: Vec<String>,
    /// Cache size limit in MiB.
    pub cache_size_limit_mb: u64,
}

/// Server settings.
#[derive(Debug, Clone)]
pub struct ServerConfig {
    /// Host to bind.
    pub host: String,
    /// Port to bind.
    pub port: u16,
    /// Public base URL of the API, used in image URLs.
    pub public_url: String,
    /// Maximum request body size in bytes.
    pub max_request_size: u64,
    /// Request timeout in seconds.
    pub request_timeout: u64,
    /// Whether CORS is enabled.
    pub enable_cors: bool,
    /// Allowed CORS origins.
    pub cors_origins: Vec<String>,
    /// Static file serving.
    pub static_files: StaticFilesConfig,
}

/// Static file serving settings.
#[derive(Debug, Clone)]
pub struct StaticFilesConfig {
    /// Whether static files are served.
    pub enabled: bool,
    /// Cache-Control max-age for static files, in seconds.
    pub cache_control_max_age: u32,
    /// Whether static files are compressed.
    pub enable_compression: bool,
}

/// The values a configuration is read from besides the command line: the
/// environment variables `GEMINI_API_KEY`, `SERVER_HOST`, `SERVER_PORT`,
/// `PUBLIC_URL` (each `None` when unset or not Unicode) and the user's home
/// directory.
#[derive(Debug, Clone)]
pub struct Environment {
    pub gemini_api_key: Option<String>,
    pub server_host: Option<String>,
    pub server_port: Option<String>,
    pub public_url: Option<String>,
    pub home_dir: Option<String>,
}

/// Two configurations hold the same settings.
pub open spec fn same_config(a: Config, b: Config) -> bool {
    &&& a.gemini.api_key@ == b.gemini.api_key@
    &&& a.gemini.base_url@ == b.gemini.base_url@
    &&& a.gemini.model@ == b.gemini.model@
    &&& a.gemini.timeout_seconds == b.gemini.timeout_seconds
    &&& a.gemini.max_retries == b.gemini.max_retries
    &&& a.gemini.rate_limit_rpm == b.gemini.rate_limit_rpm
    &&& a.fs.base_dir@ == b.fs.base_dir@
    &&& a.fs.input_dir@ == b.fs.input_dir@
    &&& a.fs.items_dir@ == b.fs.items_dir@
    &&& a.fs.output_dir@ == b.fs.output_dir@
    &&& a.fs.max_file_size == b.fs.max_file_size
    &&& views(a.fs.supported_formats@) == views(b.fs.supported_formats@)
    &&& a.fs.cache_size_limit_mb == b.fs.cache_size_limit_mb
    &&& a.server.host@ == b.server.host@
    &&& a.server.port == b.server.port
    &&& a.server.public_url@ == b.server.public_url@
    &&& a.server.max_request_size == b.server.max_request_size
    &&& a.server.request_timeout == b.server.request_timeout
    &&& a.server.enable_cors == b.server.enable_cors
    &&& views(a.server.cors_origins@) == views(b.server.cors_origins@)
    &&& a.server.static_files == b.server.static_files
}

impl Clone for Config {
    fn clone(&self) -> (r: Self)
        ensures
            same_config(r, *self),
    {
        let supported_formats = crate::models::clone_strings(&self.fs.supported_formats);
        let cors_origins = crate::models::clone_strings(&self.server.cors_origins);
        assert(views(supported_formats@) =~= views(self.fs.supported_formats@));
        assert(views(cors_origins@) =~= views(self.server.cors_origins@));
        Config {
            gemini: GeminiConfig {
                api_key: self.gemini.api_key.clone(),
                base_url: self.gemini.base_url.clone(),
                model: self.gemini.model.clone(),
                timeout_seconds: self.gemini.timeout_seconds,
                max_retries: self.gemini.max_retries,
                rate_limit_rpm: self.gemini.rate_limit_rpm,
            },
            fs: FileSystemConfig {
                base_dir: self.fs.base_dir.clone(),
                input_dir: self.fs.input_dir.clone(),
                items_dir: self.fs.items_dir.clone(),
                output_dir: self.fs.output_dir.clone(),
                max_file_size: self.fs.max_file_size,
                supported_formats,
                cache_size_limit_mb: self.fs.cache_size_limit_mb,
            },
            server: ServerConfig {
                host: self.server.host.clone(),
                port: self.server.port,
                public_url: self.server.public_url.clone(),
                max_request_size: self.server.max_request_size,
                request_timeout: self.server.request_timeout,
                enable_cors: self.server.enable_cors,
                cors_origins,
                static_files: StaticFilesConfig {
                    enabled: self.server.static_files.enabled,
                    cache_control_max_age: self.server.static_files.cache_control_max_age,
                    enable_compression: self.server.static_files.enable_compression,
                },
            },
        }
    }
}

/// Types of images the service stores.
#[derive(Debug, Clone, Copy, PartialEq, Eq, Structural)]
pub enum ImageType {
    Input,
    Item,
    Output,
}

/// The views of a list of strings.
pub open spec fn views(v: Seq<String>) -> Seq<Seq<char>> {
    v.map_values(|s: String| s@)
}

/// Joining a path and a name, as `PathBuf::join` does on Unix: an absolute
/// name replaces the path; otherwise a separator is added unless the path is
/// empty or already ends with one.
pub open spec fn path_join(base: Seq<char>, name: Seq<char>) -> Seq<char> {
    if name.len() > 0 && name[0] == '/' {
        name
    } else if base.len() == 0 || base.last() == '/' {
        base + name
    } else {
        base + seq!['/'] + name
    }
}

/// `PathBuf::join` over paths held as strings.
pub fn join_path(base: &str, name: &str) -> (r: String)
    ensures
        r@ == path_join(base@, name@),
{
    let b = crate::text::chars_of(base);
    let n = crate::text::chars_of(name);
    if n.len() > 0 && n[0] == '/' {
        return owned(name);
    }
    if b.len() == 0 || b[b.len() - 1] == '/' {
        return join2(base, name);
    }
    proof {
        reveal_strlit("/");
    }
    join3(base, "/", name)
}

/// The API key a configuration takes: the given one unless it is blank,
/// else the environment's unless it is blank.
pub open spec fn chosen_api_key(given: Option<String>, env: Option<String>) -> Option<Seq<char>> {
    if given is Some && !is_blank(given->0@) {
        Some(given->0@)
    } else if env is Some && !is_blank(env->0@) {
        Some(env->0@)
    } else {
        None
    }
}

/// The port a configuration takes: the environment's if it parses as a port
/// number, else 3000.
pub open spec fn chosen_port(env: Option<String>) -> u16 {
    match env {
        Some(p) => match parsed_u16(p@) {
            Some(n) => n,
            None => 3000,
        },
        None => 3000,
    }
}

/// A string setting: the environment's value, or the default.
pub open spec fn chosen_text(env: Option<String>, default: Seq<char>) -> Seq<char> {
    match env {
        Some(v) => v@,
        None => default,
    }
}

/// `c` holds the standard settings with the given key, base directory,
/// host, port and public URL.
pub open spec fn is_standard_config(
    c: Config,
    api_key: Seq<char>,
    base_dir: Seq<char>,
    host: Seq<char>,
    port: u16,
    public_url: Seq<char>,
) -> bool {
    &&& c.gemini.api_key@ == api_key
    &&& c.gemini.base_url@ == "https://generativelanguage.googleapis.com/v1beta"@
    &&& c.gemini.model@ == "gemini-2.5-flash-image-preview"@
    &&& c.gemini.timeout_seconds == 120
    &&& c.gemini.max_retries == 3
    &&& c.gemini.rate_limit_rpm == 60
    &&& c.fs.base_dir@ == base_dir
    &&& c.fs.input_dir@ == path_join(base_dir, "input"@)
    &&& c.fs.items_dir@ == path_join(base_dir, "items"@)
    &&& c.fs.output_dir@ == path_join(base_dir, "output"@)
    &&& c.fs.max_file_size == 10 * 1024 * 1024
    &&& views(c.fs.supported_formats@) == seq!["image/jpeg"@, "image/png"@, "image/webp"@]
    &&& c.fs.cache_size_limit_mb == 1024
    &&& c.server.host@ == host
    &&& c.server.port == port
    &&& c.server.public_url@ == public_url
    &&& c.server.max_request_size == 20 * 1024 * 1024
    &&& c.server.request_timeout == 300
    &&& c.server.enable_cors
    &&& views(c.server.cors_origins@) == seq!["*"@]
    &&& c.server.static_files.enabled
    &&& c.server.static_files.cache_control_max_age == 3600
    &&& c.server.static_files.enable_compression
}

/// The file extension for a supported MIME type.
pub open spec fn extension_for(mime: Seq<char>) -> Option<Seq<char>> {
    if mime == "image/jpeg"@ {
        Some("jpg"@)
    } else if mime == "image/png"@ {
        Some("png"@)
    } else if mime == "image/webp"@ {
        Some("webp"@)
    } else {
        None
    }
}

/// The URL path segment of an image type.
pub open spec fn image_type_segment(t: ImageType) -> Seq<char> {
    match t {
        ImageType::Input => "input"@,
        ImageType::Item => "items"@,
        ImageType::Output => "output"@,
    }
}

/// The URL of an image of type `t` at `path` under the public URL.
pub open spec fn image_url(public_url: Seq<char>, t: ImageType, path: Seq<char>) -> Seq<char> {
    public_url + "/api/images/"@ + image_type_segment(t) + "/"@ + path
}

/// The directories a configuration needs: base, input, output, and one per
/// category under the items directory.
pub open spec fn required_dirs(c: Config) -> Seq<Seq<char>> {
    seq![c.fs.base_dir@, c.fs.input_dir@, c.fs.output_dir@] + all_categories().map_values(
        |k: ItemCategory| path_join(c.fs.items_dir@, dir_name_of(k)),
    )
}

/// The message of a failure to create the `index`-th required directory
/// `dir` (in the order of `required_dirs`), with the failure's text.
pub open spec fn directory_error_message(index: int, dir: Seq<char>, cause: Seq<char>) -> Seq<char> {
    if index == 0 {
        "Failed to create base directory: "@ + cause
    } else if index == 1 {
        "Failed to create input directory: "@ + cause
    } else if index == 2 {
        "Failed to create output directory: "@ + cause
    } else {
        "Failed to create category directory '"@ + dir + "': "@ + cause
    }
}

/// The error for a failure to create the `index`-th required directory
/// `dir` (see `Config::required_directories`), with the failure's text.
pub fn directory_creation_error(index: usize, dir: &str, cause: &str) -> (e: Error)
    ensures
        e matches Error::FileSystem { message } && message@ == directory_error_message(
            index as int,
            dir@,
            cause@,
        ),
{
    let message = if index == 0 {
        join2("Failed to create base directory: ", cause)
    } else if index == 1 {
        join2("Failed to create input directory: ", cause)
    } else if index == 2 {
        join2("Failed to create output directory: ", cause)
    } else {
        let mut m = join3("Failed to create category directory '", dir, "': ");
        m.append(cause);
        m
    };
    Error::FileSystem { message }
}

fn text_list(a: &str, b: &str, c: &str) -> (v: Vec<String>)
    ensures
        views(v@) == seq![a@, b@, c@],
{
    let v = vec![owned(a), owned(b), owned(c)];
    assert(views(v@) =~= seq![a@, b@, c@]);
    v
}

impl Config {
    /// The standard configuration with the given key, home directory, host,
    /// port and public URL.
    fn standard(api_key: String, home_dir: &str, host: String, port: u16, public_url: String) -> (c:
        Config)
        ensures
            is_standard_config(
                c,
                api_key@,
                path_join(home_dir@, ".mirage-fit"@),
                host@,
                port,
                public_url@,
            ),
    {
        let base_dir = join_path(home_dir, ".mirage-fit");
        let input_dir = join_path(base_dir.as_str(), "input");
        let items_dir = join_path(base_dir.as_str(), "items");
        let output_dir = join_path(base_dir.as_str(), "output");
        let cors_origins = vec![owned("*")];
        assert(views(cors_origins@) =~= seq!["*"@]);
        Config {
            gemini: GeminiConfig {
                api_key,
                base_url: owned("https://generativelanguage.googleapis.com/v1beta"),
                model: owned("gemini-2.5-flash-image-preview"),
                timeout_seconds: 120,
                max_retries: 3,
                rate_limit_rpm: 60,
            },
            fs: FileSystemConfig {
                base_dir,
                input_dir,
                items_dir,
                output_dir,
                max_file_size: 10 * 1024 * 1024,
                supported_formats: text_list("image/jpeg", "image/png", "image/webp"),
                cache_size_limit_mb: 1024,
            },
            server: ServerConfig {
                host,
                port,
                public_url,
                max_request_size: 20 * 1024 * 1024,
                request_timeout: 300,
                enable_cors: true,
                cors_origins,
                static_files: StaticFilesConfig {
                    enabled: true,
                    cache_control_max_age: 3600,
                    enable_compression: true,
                },
            },
        }
    }

    /// A configuration with the given API key, falling back to the
    /// environment's, with the data directory `.mirage-fit` in the home
    /// directory and server settings from the environment.
    pub fn new(gemini_api_key: Option<String>, env: Environment) -> (r: Result<Config, Error>)
        ensures
            chosen_api_key(gemini_api_key, env.gemini_api_key) is None ==> (r matches Err(
                Error::Config { message },
            ) && message@
                == "Gemini API key not provided. Set GEMINI_API_KEY environment variable or use --gemini-api-key flag"@),
            chosen_api_key(gemini_api_key, env.gemini_api_key) is Some && env.home_dir is None
                ==> (r matches Err(Error::Config { message }) && message@
                == "Unable to determine home directory"@),
            chosen_api_key(gemini_api_key, env.gemini_api_key) is Some && env.home_dir is Some
                ==> (r matches Ok(c) && is_standard_config(
                c,
                chosen_api_key(gemini_api_key, env.gemini_api_key)->0,
                path_join(env.home_dir->0@, ".mirage-fit"@),
                chosen_text(env.server_host, "127.0.0.1"@),
                chosen_port(env.server_port),
                chosen_text(env.public_url, "http://127.0.0.1:3000"@),
            )),
    {
        let api_key = match gemini_api_key {
            Some(key) if !str_is_blank(key.as_str()) => key,
            _ => match env.gemini_api_key {
                Some(key) if !str_is_blank(key.as_str()) => key,
                _ => {
                    return Err(
                        Error::config(
                            "Gemini API key not provided. Set GEMINI_API_KEY environment variable or use --gemini-api-key flag",
                        ),
                    );
                },
            },
        };
        let home_dir = match env.home_dir {
            Some(h) => h,
            None => {
                return Err(Error::config("Unable to determine home directory"));
            },
        };
        let host = match env.server_host {
            Some(h) => h,
            None => owned("127.0.0.1"),
        };
        let port = match env.server_port {
            Some(p) => match parse_u16(p.as_str()) {
                Some(n) => n,
                None => 3000,
            },
            None => 3000,
        };
        let public_url = match env.public_url {
            Some(u) => u,
            None => owned("http://127.0.0.1:3000"),
        };
        Ok(Config::standard(api_key, home_dir.as_str(), host, port, public_url))
    }

    /// The full Gemini API URL of `endpoint`.
    pub fn gemini_url(&self, endpoint: &str) -> (u: String)
        ensures
            u@ == self.gemini.base_url@ + "/"@ + endpoint@,
    {
        join3(self.gemini.base_url.as_str(), "/", endpoint)
    }

    /// The content generation URL of the configured model (without API key).
    pub fn gemini_generate_url(&self) -> (u: String)
        ensures
            u@ == self.gemini.base_url@ + "/"@ + ("models/"@ + self.gemini.model@
                + ":generateContent"@),
    {
        let endpoint = join3("models/", self.gemini.model.as_str(), ":generateContent");
        self.gemini_url(endpoint.as_str())
    }

    /// Whether `mime_type` is one of the supported formats.
    pub fn is_supported_format(&self, mime_type: &str) -> (b: bool)
        ensures
            b == has_elem(views(self.fs.supported_formats@), mime_type@),
    {
        let formats = &self.fs.supported_formats;
        let mut i: usize = 0;
        while i < formats.len()
            invariant
                i <= formats@.len(),
                formats@ == self.fs.supported_formats@,
                forall|j: int| 0 <= j < i ==> #[trigger] formats@[j]@ != mime_type@,
            decreases formats@.len() - i,
        {
            if str_eq(formats[i].as_str(), mime_type) {
                assert(views(formats@)[i as int] == mime_type@);
                return true;
            }
            i = i + 1;
        }
        assert forall|j: int| 0 <= j < views(formats@).len() implies views(formats@)[j]
            != mime_type@ by {
            assert(views(formats@)[j] == formats@[j]@);
        }
        false
    }

    /// The file extension for a MIME type.
    pub fn get_file_extension(&self, mime_type: &str) -> (r: Option<&'static str>)
        ensures
            match r {
                Some(e) => extension_for(mime_type@) == Some(e@),
                None => extension_for(mime_type@) is None,
            },
    {
        if str_eq(mime_type, "image/jpeg") {
            Some("jpg")
        } else if str_eq(mime_type, "image/png") {
            Some("png")
        } else if str_eq(mime_type, "image/webp") {
            Some("webp")
        } else {
            None
        }
    }

    /// Check a file size against the configured upload limit.
    pub fn validate_file_size(&self, size: u64) -> (r: Result<(), Error>)
        ensures
            size <= self.fs.max_file_size ==> r is Ok,
            size > self.fs.max_file_size ==> (r matches Err(Error::InvalidRequest { message })
                && message@ == "File size ("@ + decimal(size as nat)
                + " bytes) exceeds maximum allowed size ("@ + decimal(
                self.fs.max_file_size as nat,
            ) + " bytes)"@),
    {
        if size > self.fs.max_file_size {
            let shown = decimal_string(size);
            let limit = decimal_string(self.fs.max_file_size);
            let mut message = crate::text::join4(
                "File size (",
                shown.as_str(),
                " bytes) exceeds maximum allowed size (",
                limit.as_str(),
            );
            message.append(" bytes)");
            return Err(Error::InvalidRequest { message });
        }
        Ok(())
    }

    /// The directories the service needs, in the order they are created:
    /// base, input, output, then one per category under the items directory.
    pub fn required_directories(&self) -> (v: Vec<String>)
        ensures
            views(v@) == required_dirs(*self),
    {
        let mut v: Vec<String> = Vec::new();
        v.push(self.fs.base_dir.clone());
        v.push(self.fs.input_dir.clone());
        v.push(self.fs.output_dir.clone());
        let categories = ItemCategory::all();
        let ghost f = |k: ItemCategory| path_join(self.fs.items_dir@, dir_name_of(k));
        let ghost head = seq![self.fs.base_dir@, self.fs.input_dir@, self.fs.output_dir@];
        assert(views(v@) =~= head + all_categories().take(0).map_values(f));
        let mut i: usize = 0;
        while i < categories.len()
            invariant
                i <= categories@.len(),
                categories@ == all_categories(),
                f == (|k: ItemCategory| path_join(self.fs.items_dir@, dir_name_of(k))),
                views(v@) == head + all_categories().take(i as int).map_values(f),
            decreases categories@.len() - i,
        {
            let ghost before = views(v@);
            let dir = self.category_path(&categories[i]);
            v.push(dir);
            proof {
                assert(views(v@) =~= before.push(f(all_categories()[i as int])));
                assert(all_categories().take(i + 1).map_values(f) =~= all_categories().take(
                    i as int,
                ).map_values(f).push(f(all_categories()[i as int])));
                assert(views(v@) =~= head + all_categories().take(i + 1).map_values(f));
            }
            i = i + 1;
        }
        assert(all_categories().take(11) =~= all_categories());
        v
    }

    /// The directory of a category's items.
    pub fn category_path(&self, category: &ItemCategory) -> (p: String)
        ensures
            p@ == path_join(self.fs.items_dir@, dir_name_of(*category)),
    {
        join_path(self.fs.items_dir.as_str(), category.dir_name())
    }

    /// The absolute URL of an image, so that a browser can fetch it from
    /// the API server.
    pub fn image_url_path(&self, image_type: ImageType, path: &str) -> (u: String)
        ensures
            u@ == image_url(self.server.public_url@, image_type, path@),
    {
        let prefix = match image_type {
            ImageType::Input => "/api/images/input/",
            ImageType::Item => "/api/images/items/",
            ImageType::Output => "/api/images/output/",
        };
        proof {
            reveal_strlit("/api/images/input/");
            reveal_strlit("/api/images/items/");
            reveal_strlit("/api/images/output/");
            reveal_strlit("/api/images/");
            reveal_strlit("input");
            reveal_strlit("items");
            reveal_strlit("output");
            reveal_strlit("/");
            assert(prefix@ =~= "/api/images/"@ + image_type_segment(image_type) + "/"@);
        }
        join3(self.server.public_url.as_str(), prefix, path)
    }

    /// The address the server binds: host and port.
    pub fn server_addr(&self) -> (a: String)
        ensures
            a@ == self.server.host@ + ":"@ + decimal(self.server.port as nat),
    {
        let port = decimal_string(self.server.port as u64);
        join3(self.server.host.as_str(), ":", port.as_str())
    }
}

impl Config {
    /// The configuration used in tests: `Config::new` with the key
    /// "test-api-key" in the given environment, whose home directory must
    /// be known.
    pub fn default_in(env: Environment) -> (c: Config)
        requires
            env.home_dir is Some,
        ensures
            is_standard_config(
                c,
                "test-api-key"@,
                path_join(env.home_dir->0@, ".mirage-fit"@),
                chosen_text(env.server_host, "127.0.0.1"@),
                chosen_port(env.server_port),
                chosen_text(env.public_url, "http://127.0.0.1:3000"@),
            ),
    {
        let ghost e = env;
        let key = owned("test-api-key");
        proof {
            reveal_strlit("test-api-key");
            assert(!is_blank(key@)) by {
                assert(key@[0] == 't');
            }
        }
        match Config::new(Some(key), env) {
            Ok(c) => c,
            Err(_) => {
                proof {
                    assert(false);
                }
                Config::standard(
                    owned("test-api-key"),
                    "",
                    owned("127.0.0.1"),
                    3000,
                    owned("http://127.0.0.1:3000"),
                )
            },
        }
    }
}

/// The standard configuration can always take an upload of the largest
/// accepted size in one request, and the Gemini and request timeouts are at
/// least 30 seconds.
pub proof fn law_standard_limits(
    c: Config,
    api_key: Seq<char>,
    base_dir: Seq<char>,
    host: Seq<char>,
    port: u16,
    public_url: Seq<char>,
)
    requires
        is_standard_config(c, api_key, base_dir, host, port, public_url),
    ensures
        c.fs.max_file_size >= 1024 * 1024,
        c.server.max_request_size >= c.fs.max_file_size,
        c.server.request_timeout >= 30,
        c.gemini.timeout_seconds >= 30,
{
}

/// A category's directory is the items directory joined with the
/// category's directory name, so it ends with that name.
pub proof fn law_category_path_ends_with_dir_name(items_dir: Seq<char>, c: ItemCategory)
    ensures
        crate::text::is_suffix(dir_name_of(c), path_join(items_dir, dir_name_of(c))),
{
    crate::models::law_category_names_well_formed(c);
    let d = dir_name_of(c);
    let p = path_join(items_dir, d);
    assert(p.subrange(p.len() - d.len(), p.len() as int) =~= d);
}

} // verus!
