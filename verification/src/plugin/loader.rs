//! Which plugin files may be loaded, and which plugins are.
use vstd::prelude::*;

use sha2::Digest;

use crate::error::opt_text;
use crate::name_map::NameMap;
use crate::plugin::PluginInfo;
use crate::proxies::says;
use crate::text;
use crate::time::SystemTime;

verus! {

broadcast use vstd::string::group_string_axioms;

/// Plugin loader configuration.
#[derive(Debug, Clone)]
pub struct LoaderConfig {
    pub plugin_directories: Vec<String>,
    pub auto_reload: bool,
    pub reload_interval_seconds: u64,
    pub max_plugin_memory_mb: usize,
    pub plugin_timeout_seconds: u64,
    /// If none, all plugins are allowed
    pub allowed_plugins: Option<Vec<String>>,
    pub blocked_plugins: Vec<String>,
    pub require_signature: bool,
    pub signature_key_path: Option<String>,
}

impl LoaderConfig {
    /// Everything is as it is where nothing is configured.
    pub open spec fn is_default(self) -> bool {
        &&& text::views(self.plugin_directories@) == seq!["./plugins"@]
        &&& !self.auto_reload
        &&& self.reload_interval_seconds == 60
        &&& self.max_plugin_memory_mb == 100
        &&& self.plugin_timeout_seconds == 30
        &&& self.allowed_plugins is None
        &&& self.blocked_plugins@.len() == 0
        &&& !self.require_signature
        &&& self.signature_key_path is None
    }
}

impl Default for LoaderConfig {
    fn default() -> (result: Self)
        ensures
            result.is_default(),
    {
        let mut directories: Vec<String> = Vec::new();
        directories.push("./plugins".to_string());
        assert(text::views(directories@) =~= seq!["./plugins"@]);
        LoaderConfig {
            plugin_directories: directories,
            auto_reload: false,
            reload_interval_seconds: 60,
            max_plugin_memory_mb: 100,
            plugin_timeout_seconds: 30,
            allowed_plugins: None,
            blocked_plugins: Vec::new(),
            require_signature: false,
            signature_key_path: None,
        }
    }
}

/// Whether two configurations of loaders say the same.
pub open spec fn same_loader_config(a: LoaderConfig, b: LoaderConfig) -> bool {
    &&& a.plugin_directories@ == b.plugin_directories@
    &&& a.auto_reload == b.auto_reload
    &&& a.reload_interval_seconds == b.reload_interval_seconds
    &&& a.max_plugin_memory_mb == b.max_plugin_memory_mb
    &&& a.plugin_timeout_seconds == b.plugin_timeout_seconds
    &&& match (a.allowed_plugins, b.allowed_plugins) {
        (Some(x), Some(y)) => x@ == y@,
        (None, None) => true,
        _ => false,
    }
    &&& a.blocked_plugins@ == b.blocked_plugins@
    &&& a.require_signature == b.require_signature
    &&& a.signature_key_path == b.signature_key_path
}

impl LoaderConfig {
    /// The same once more.
    pub fn copy(&self) -> (result: Self)
        ensures
            same_loader_config(result, *self),
    {
        LoaderConfig {
            plugin_directories: text::copy_strings(&self.plugin_directories),
            auto_reload: self.auto_reload,
            reload_interval_seconds: self.reload_interval_seconds,
            max_plugin_memory_mb: self.max_plugin_memory_mb,
            plugin_timeout_seconds: self.plugin_timeout_seconds,
            allowed_plugins: match &self.allowed_plugins {
                Some(list) => Some(text::copy_strings(list)),
                None => None,
            },
            blocked_plugins: text::copy_strings(&self.blocked_plugins),
            require_signature: self.require_signature,
            signature_key_path: match &self.signature_key_path {
                Some(p) => Some(p.clone()),
                None => None,
            },
        }
    }
}

// ---------------------------------------------------------------------------------------------
// Paths
// ---------------------------------------------------------------------------------------------

/// A path without what stands behind its last name: slashes and dots between slashes.
pub open spec fn stripped(path: Seq<char>) -> Seq<char>
    decreases path.len(),
{
    if path.len() > 0 && path.last() == '/' {
        stripped(path.drop_last())
    } else if path.len() > 1 && path.last() == '.' && path[path.len() - 2] == '/' {
        stripped(path.drop_last())
    } else {
        path
    }
}

/// The place of the last `c`, or -1 where there is none.
pub open spec fn last_position(s: Seq<char>, c: char) -> int
    decreases s.len(),
{
    if s.len() == 0 {
        -1
    } else if s.last() == c {
        s.len() - 1
    } else {
        last_position(s.drop_last(), c)
    }
}

/// The last name of a path with slashes; it may be empty, `.` or `..`.
pub open spec fn last_name(path: Seq<char>) -> Seq<char> {
    stripped(path).skip(last_position(stripped(path), '/') + 1)
}

/// The extension of a path: what follows the last dot of the last name, unless the name begins with
/// that dot or is `..`.
pub open spec fn extension(path: Seq<char>) -> Option<Seq<char>> {
    let name = last_name(path);
    let dot = last_position(name, '.');
    if name == ".."@ || dot <= 0 {
        None
    } else {
        Some(name.skip(dot + 1))
    }
}

/// Whether a path is that of a shared library.
pub open spec fn is_library_path(path: Seq<char>) -> bool {
    match extension(path) {
        Some(e) => e == "so"@ || e == "dylib"@ || e == "dll"@,
        None => false,
    }
}

/// Where the part behind the last `c` among the first `len` characters begins.
fn after_last(cs: &Vec<char>, len: usize, c: char) -> (result: usize)
    requires
        len <= cs@.len(),
    ensures
        result == last_position(cs@.take(len as int), c) + 1,
        result <= len,
{
    let mut i: usize = len;
    while i > 0 && cs[i - 1] != c
        invariant
            i <= len <= cs@.len(),
            last_position(cs@.take(len as int), c) == last_position(cs@.take(i as int), c),
        decreases i,
    {
        proof {
            let s = cs@.take(i as int);
            assert(s.last() == cs@[i - 1]);
            assert(s.drop_last() =~= cs@.take(i - 1));
        }
        i -= 1;
    }
    proof {
        if i > 0 {
            assert(cs@.take(i as int).last() == cs@[i - 1]);
        }
    }
    i
}

/// The extension of a path.
pub fn path_extension(path: &str) -> (result: Option<String>)
    ensures
        opt_text(result) == extension(path@),
{
    let cs = text::chars(path);
    let mut end: usize = cs.len();
    assert(cs@.take(end as int) =~= path@);
    while end > 0 && (cs[end - 1] == '/' || (end > 1 && cs[end - 1] == '.' && cs[end - 2] == '/'))
        invariant
            end <= cs@.len(),
            stripped(cs@.take(end as int)) == stripped(path@),
        decreases end,
    {
        proof {
            let s = cs@.take(end as int);
            assert(s.last() == cs@[end - 1]);
            assert(s.drop_last() =~= cs@.take(end - 1));
        }
        end -= 1;
    }
    proof {
        let s = cs@.take(end as int);
        if end > 0 {
            assert(s.last() == cs@[end - 1]);
        }
        assert(s == stripped(path@));
    }
    let start = after_last(&cs, end, '/');
    let name = text::from_range(&cs, start, end);
    proof {
        assert(name@ =~= last_name(path@));
    }
    if text::eq(name.as_str(), "..") {
        return None;
    }
    let letters = text::chars(name.as_str());
    assert(letters@.take(letters@.len() as int) =~= letters@);
    let dot = after_last(&letters, letters.len(), '.');
    if dot <= 1 {
        return None;
    }
    let ext = text::from_range(&letters, dot, letters.len());
    assert(ext@ =~= name@.skip(dot as int));
    Some(ext)
}

/// Whether a path is that of a shared library.
pub fn is_plugin_path(path: &str) -> (result: bool)
    ensures
        result == is_library_path(path@),
{
    match path_extension(path) {
        Some(e) => text::eq(e.as_str(), "so") || text::eq(e.as_str(), "dylib") || text::eq(
            e.as_str(),
            "dll",
        ),
        None => false,
    }
}

// ---------------------------------------------------------------------------------------------
// The loader
// ---------------------------------------------------------------------------------------------

/// The SHA-256 digest of bytes, written in hexadecimal digits.
pub uninterp spec fn sha256_hex(content: Seq<u8>) -> Seq<char>;

/// `Sha256::new`, `update` and `finalize`: the digest depends on nothing but the bytes. Written out
/// it has 64 digits.
#[verifier::external_body]
fn digest(content: &Vec<u8>) -> (result: String)
    ensures
        result@ == sha256_hex(content@),
        result@.len() == 64,
{
    let mut hasher = sha2::Sha256::new();
    hasher.update(content);
    format!("{:x}", hasher.finalize())
}

/// Plugin load information.
#[derive(Debug)]
pub struct LoadedPluginInfo {
    pub info: PluginInfo,
    pub path: String,
    pub loaded_at: SystemTime,
    pub file_size: u64,
    pub file_hash: String,
    /// The name under which the library is kept
    pub library_handle: String,
}

/// Statistics about the plugin loader.
#[derive(Debug, Clone, Copy, PartialEq, Eq, Structural)]
pub struct PluginLoaderStatistics {
    pub total_plugins: usize,
    pub total_libraries: usize,
    pub active_watchers: usize,
    pub total_file_size_bytes: u64,
    pub directories_watched: usize,
    pub auto_reload_enabled: bool,
}

/// What the loader keeps of the libraries and plugins that were loaded. Libraries and the tasks that
/// watch files are known by numbers.
pub struct PluginLoader {
    pub config: LoaderConfig,
    pub loaded_libraries: NameMap<u64>,
    pub loaded_plugins: NameMap<LoadedPluginInfo>,
    pub file_watchers: NameMap<u64>,
}

/// What was released when a plugin was unloaded.
#[derive(Debug, Clone, Copy, PartialEq, Eq, Structural)]
pub struct Released {
    /// The library to close
    pub library: Option<u64>,
    /// The watcher to stop
    pub watcher: Option<u64>,
}

/// The size in bytes of this many megabytes.
pub open spec fn megabytes(mb: usize) -> int {
    mb * 1_048_576
}

/// What is wrong with a plugin file, where `exists` tells whether it is there and `size` how large
/// it is or why that cannot be told.
pub open spec fn file_fault(
    config: LoaderConfig,
    path: Seq<char>,
    exists: bool,
    size: std::result::Result<u64, Seq<char>>,
) -> Option<Seq<char>> {
    if !exists {
        Some("Plugin file does not exist: "@ + path)
    } else if !is_library_path(path) {
        Some("Invalid plugin file extension: "@ + path)
    } else {
        match size {
            Err(e) => Some("Failed to get metadata for: "@ + path),
            Ok(n) => if n > megabytes(config.max_plugin_memory_mb) {
                Some(
                    "Plugin file too large: "@ + text::decimal(n as nat) + " bytes (max: "@
                        + text::decimal(megabytes(config.max_plugin_memory_mb) as nat)
                        + " bytes)"@,
                )
            } else {
                None
            },
        }
    }
}

/// Whether a text holds a digit.
pub open spec fn has_digit(s: Seq<char>) -> bool {
    exists|i: int| 0 <= i < s.len() && '0' <= (#[trigger] s[i]) <= '9'
}

/// What is wrong with what a plugin says about itself.
pub open spec fn info_fault(info: PluginInfo) -> Option<Seq<char>> {
    if info.name@.len() == 0 {
        Some("Plugin name cannot be empty"@)
    } else if info.version@.len() == 0 {
        Some("Plugin version cannot be empty"@)
    } else if !has_digit(info.version@) {
        Some("Invalid version format: "@ + info.version@)
    } else {
        None
    }
}

/// Whether a plugin may be loaded: it is not blocked, and it is listed where there is a list of
/// those allowed.
pub open spec fn is_allowed(config: LoaderConfig, name: Seq<char>) -> bool {
    &&& !text::views(config.blocked_plugins@).contains(name)
    &&& match config.allowed_plugins {
        Some(list) => text::views(list@).contains(name),
        None => true,
    }
}

/// Why a plugin cannot be loaded, given what it says about itself.
pub open spec fn refusal(config: LoaderConfig, info: PluginInfo) -> Option<Seq<char>> {
    match info_fault(info) {
        Some(m) => Some(m),
        None => if is_allowed(config, info.name@) {
            None
        } else {
            Some("Plugin '"@ + info.name@ + "' is not allowed"@)
        },
    }
}

/// The name under which the library of a plugin is kept.
pub open spec fn handle_of(info: PluginInfo) -> Seq<char> {
    info.name@ + "_"@ + info.version@
}

/// The sizes of the files of plugins together.
pub open spec fn total_size(plugins: Seq<(String, LoadedPluginInfo)>) -> int
    decreases plugins.len(),
{
    if plugins.len() == 0 {
        0
    } else {
        total_size(plugins.drop_last()) + plugins.last().1.file_size
    }
}

proof fn lemma_total_size_grows(plugins: Seq<(String, LoadedPluginInfo)>, n: int)
    requires
        0 <= n <= plugins.len(),
    ensures
        0 <= total_size(plugins.take(n)) <= total_size(plugins),
    decreases plugins.len(),
{
    if n == plugins.len() {
        assert(plugins.take(n) =~= plugins);
        if n > 0 {
            lemma_total_size_grows(plugins.drop_last(), n - 1);
        }
    } else {
        lemma_total_size_grows(plugins.drop_last(), n);
        assert(plugins.drop_last().take(n) =~= plugins.take(n));
    }
}

/// A text with the digit that it holds.
fn holds_digit(s: &str) -> (result: bool)
    ensures
        result == has_digit(s@),
{
    let cs = text::chars(s);
    let mut i: usize = 0;
    while i < cs.len()
        invariant
            i <= cs@.len(),
            cs@ == s@,
            forall|j: int| 0 <= j < i ==> !('0' <= (#[trigger] cs@[j]) <= '9'),
        decreases cs@.len() - i,
    {
        let c: char = cs[i];
        if '0' <= c && c <= '9' {
            assert('0' <= s@[i as int] <= '9');
            return true;
        }
        i += 1;
    }
    false
}

/// What unloading a plugin by its name does to a loader, and what it gives.
pub open spec fn unloaded(
    before: PluginLoader,
    after: PluginLoader,
    name: Seq<char>,
    result: std::result::Result<Released, String>,
) -> bool {
    if !before.loaded_plugins@.contains_key(name) {
        after == before && says(result, "Plugin '"@ + name + "' is not loaded"@)
    } else {
        let loaded = before.loaded_plugins@[name];
        &&& after.config == before.config
        &&& after.loaded_plugins@ == before.loaded_plugins@.remove(name)
        &&& after.loaded_libraries@ == before.loaded_libraries@.remove(loaded.library_handle@)
        &&& after.file_watchers@ == before.file_watchers@.remove(loaded.path@)
        &&& result == Ok::<Released, String>(
            Released {
                library: value_in(before.loaded_libraries@, loaded.library_handle@),
                watcher: value_in(before.file_watchers@, loaded.path@),
            },
        )
    }
}

impl PluginLoader {
    /// No library, plugin or watched file occurs twice.
    pub open spec fn wf(self) -> bool {
        &&& self.loaded_libraries.wf()
        &&& self.loaded_plugins.wf()
        &&& self.file_watchers.wf()
    }

    pub fn new(config: LoaderConfig) -> (result: Self)
        ensures
            result.wf(),
            result.config == config,
            result.loaded_libraries@ == Map::<Seq<char>, u64>::empty(),
            result.loaded_plugins@ == Map::<Seq<char>, LoadedPluginInfo>::empty(),
            result.file_watchers@ == Map::<Seq<char>, u64>::empty(),
    {
        PluginLoader {
            config,
            loaded_libraries: NameMap::new(),
            loaded_plugins: NameMap::new(),
            file_watchers: NameMap::new(),
        }
    }

    /// Check if a plugin file is valid, given whether it is there and how large it is.
    pub fn validate_plugin_file(
        &self,
        path: &str,
        exists: bool,
        size: &std::result::Result<u64, String>,
    ) -> (result: std::result::Result<(), String>)
        requires
            megabytes(self.config.max_plugin_memory_mb) <= usize::MAX,
        ensures
            match file_fault(
                self.config,
                path@,
                exists,
                match *size {
                    Ok(n) => Ok(n),
                    Err(e) => Err(e@),
                },
            ) {
                Some(m) => says(result, m),
                None => result is Ok,
            },
    {
        if !exists {
            return Err(text::cat2("Plugin file does not exist: ", path));
        }
        if !is_plugin_path(path) {
            return Err(text::cat2("Invalid plugin file extension: ", path));
        }
        match size {
            Err(_) => Err(text::cat2("Failed to get metadata for: ", path)),
            Ok(n) => {
                let max_size: u64 = (self.config.max_plugin_memory_mb * 1_048_576) as u64;
                if *n > max_size {
                    let actual = text::number(*n);
                    let limit = text::number(max_size);
                    return Err(
                        text::cat5(
                            "Plugin file too large: ",
                            actual.as_str(),
                            " bytes (max: ",
                            limit.as_str(),
                            " bytes)",
                        ),
                    );
                }
                Ok(())
            },
        }
    }

    /// Validate plugin information.
    pub fn validate_plugin_info(&self, info: &PluginInfo) -> (result: std::result::Result<
        (),
        String,
    >)
        ensures
            match info_fault(*info) {
                Some(m) => says(result, m),
                None => result is Ok,
            },
    {
        if text::is_empty(info.name.as_str()) {
            return Err("Plugin name cannot be empty".to_string());
        }
        if text::is_empty(info.version.as_str()) {
            return Err("Plugin version cannot be empty".to_string());
        }
        if !holds_digit(info.version.as_str()) {
            return Err(text::cat2("Invalid version format: ", info.version.as_str()));
        }
        Ok(())
    }

    /// Check if plugin is allowed to load.
    pub fn is_plugin_allowed(&self, plugin_name: &str) -> (result: bool)
        ensures
            result == is_allowed(self.config, plugin_name@),
    {
        if text::list_contains(&self.config.blocked_plugins, plugin_name) {
            return false;
        }
        match &self.config.allowed_plugins {
            Some(list) => text::list_contains(list, plugin_name),
            None => true,
        }
    }

    /// Check if file is a plugin file based on extension.
    pub fn is_plugin_file(&self, path: &str) -> (result: bool)
        ensures
            result == is_library_path(path@),
    {
        is_plugin_path(path)
    }

    /// Whether a library whose plugin says this about itself may be used.
    pub fn accept(&self, info: &PluginInfo) -> (result: std::result::Result<(), String>)
        ensures
            match refusal(self.config, *info) {
                Some(m) => says(result, m),
                None => result is Ok,
            },
    {
        if let Err(e) = self.validate_plugin_info(info) {
            return Err(e);
        }
        if !self.is_plugin_allowed(info.name.as_str()) {
            return Err(text::cat3("Plugin '", info.name.as_str(), "' is not allowed"));
        }
        Ok(())
    }

    /// Calculate file hash for change detection.
    pub fn calculate_file_hash(&self, content: &Vec<u8>) -> (result: String)
        ensures
            result@ == sha256_hex(content@),
            result@.len() == 64,
    {
        digest(content)
    }

    /// Keeps a plugin that was loaded, with its library and what its file holds. The result is the
    /// name of the plugin.
    pub fn load_plugin(
        &mut self,
        info: PluginInfo,
        path: &str,
        library: u64,
        content: &Vec<u8>,
        file_size: u64,
        now: SystemTime,
    ) -> (result: std::result::Result<String, String>)
        requires
            old(self).wf(),
        ensures
            final(self).wf(),
            final(self).config == old(self).config,
            final(self).file_watchers == old(self).file_watchers,
            match refusal(old(self).config, info) {
                Some(m) => *final(self) == *old(self) && says(result, m),
                None => {
                    let kept = final(self).loaded_plugins@[info.name@];
                    &&& result == Ok::<String, String>(info.name)
                    &&& final(self).loaded_libraries@ == old(self).loaded_libraries@.insert(
                        handle_of(info),
                        library,
                    )
                    &&& final(self).loaded_plugins@ == old(self).loaded_plugins@.insert(
                        info.name@,
                        kept,
                    )
                    &&& kept.info == info
                    &&& kept.path@ == path@
                    &&& kept.loaded_at == now
                    &&& kept.file_size == file_size
                    &&& kept.file_hash@ == sha256_hex(content@)
                    &&& kept.library_handle@ == handle_of(info)
                },
            },
    {
        if let Err(e) = self.accept(&info) {
            return Err(e);
        }
        let file_hash = self.calculate_file_hash(content);
        let library_handle = text::cat3(info.name.as_str(), "_", info.version.as_str());
        let _ = self.loaded_libraries.insert(library_handle.clone(), library);
        let name = info.name.clone();
        let loaded = LoadedPluginInfo {
            info,
            path: path.to_string(),
            loaded_at: now,
            file_size,
            file_hash,
            library_handle,
        };
        let _ = self.loaded_plugins.insert(name.clone(), loaded);
        Ok(name)
    }

    /// Unload a plugin. The result tells what is to be closed and stopped.
    pub fn unload_plugin(&mut self, plugin_name: &str) -> (result: std::result::Result<
        Released,
        String,
    >)
        requires
            old(self).wf(),
        ensures
            final(self).wf(),
            unloaded(*old(self), *final(self), plugin_name@, result),
    {
        match self.loaded_plugins.remove(plugin_name) {
            None => Err(text::cat3("Plugin '", plugin_name, "' is not loaded")),
            Some(loaded) => {
                let library = self.loaded_libraries.remove(loaded.library_handle.as_str());
                let watcher = self.file_watchers.remove(loaded.path.as_str());
                Ok(Released { library, watcher })
            },
        }
    }

    /// Whether a file has changed since its hash was last taken; the new hash where it has.
    pub fn file_changed(&self, last_hash: &str, content: &Vec<u8>) -> (result: Option<String>)
        ensures
            opt_text(result) == (if sha256_hex(content@) == last_hash@ {
                None
            } else {
                Some(sha256_hex(content@))
            }),
    {
        let new_hash = self.calculate_file_hash(content);
        if text::eq(new_hash.as_str(), last_hash) {
            None
        } else {
            Some(new_hash)
        }
    }

    /// The files to watch for changes, each with its hash; none unless files are to be watched.
    pub fn start_auto_reload(&self) -> (result: Vec<(String, String)>)
        ensures
            result@.len() == (if self.config.auto_reload {
                self.loaded_plugins.entries@.len()
            } else {
                0
            }),
            forall|i: int|
                0 <= i < result@.len() ==> (#[trigger] result@[i]).0
                    == self.loaded_plugins.entries@[i].1.path && result@[i].1
                    == self.loaded_plugins.entries@[i].1.file_hash,
    {
        let mut files: Vec<(String, String)> = Vec::new();
        if !self.config.auto_reload {
            return files;
        }
        let mut i: usize = 0;
        while i < self.loaded_plugins.entries.len()
            invariant
                i <= self.loaded_plugins.entries@.len(),
                files@.len() == i,
                forall|j: int|
                    0 <= j < i ==> (#[trigger] files@[j]).0
                        == self.loaded_plugins.entries@[j].1.path && files@[j].1
                        == self.loaded_plugins.entries@[j].1.file_hash,
            decreases self.loaded_plugins.entries@.len() - i,
        {
            let loaded = &self.loaded_plugins.entries[i].1;
            files.push((loaded.path.clone(), loaded.file_hash.clone()));
            i += 1;
        }
        files
    }

    /// Keeps the task that watches a file. The result is the task that watched it before.
    pub fn watcher_started(&mut self, path: String, watcher: u64) -> (result: Option<u64>)
        requires
            old(self).wf(),
        ensures
            final(self).wf(),
            final(self).config == old(self).config,
            final(self).loaded_libraries == old(self).loaded_libraries,
            final(self).loaded_plugins == old(self).loaded_plugins,
            final(self).file_watchers@ == old(self).file_watchers@.insert(path@, watcher),
            result == value_in(old(self).file_watchers@, path@),
    {
        self.file_watchers.insert(path, watcher)
    }

    /// Stop auto-reload watchers. The result is the watchers to stop, each with its file.
    pub fn stop_auto_reload(&mut self) -> (result: Vec<(String, u64)>)
        requires
            old(self).wf(),
        ensures
            final(self).wf(),
            final(self).config == old(self).config,
            final(self).loaded_libraries == old(self).loaded_libraries,
            final(self).loaded_plugins == old(self).loaded_plugins,
            final(self).file_watchers@ == Map::<Seq<char>, u64>::empty(),
            result@ == old(self).file_watchers.entries@,
    {
        let mut watchers: NameMap<u64> = NameMap::new();
        std::mem::swap(&mut watchers, &mut self.file_watchers);
        watchers.entries
    }

    /// The plugin of this name, where it is loaded.
    pub fn get_loaded_plugin(&self, name: &str) -> (result: Option<&LoadedPluginInfo>)
        requires
            self.wf(),
        ensures
            match result {
                Some(i) => self.loaded_plugins@.contains_key(name@) && *i
                    == self.loaded_plugins@[name@],
                None => !self.loaded_plugins@.contains_key(name@),
            },
    {
        self.loaded_plugins.get(name)
    }

    /// Get information about loaded plugins.
    pub fn get_loaded_plugins(&self) -> (result: &NameMap<LoadedPluginInfo>)
        ensures
            *result == self.loaded_plugins,
    {
        &self.loaded_plugins
    }

    /// Get statistics about loaded plugins.
    pub fn get_statistics(&self) -> (result: PluginLoaderStatistics)
        requires
            total_size(self.loaded_plugins.entries@) <= u64::MAX,
        ensures
            result.total_plugins == self.loaded_plugins.entries@.len(),
            result.total_libraries == self.loaded_libraries.entries@.len(),
            result.active_watchers == self.file_watchers.entries@.len(),
            result.total_file_size_bytes == total_size(self.loaded_plugins.entries@),
            result.directories_watched == self.config.plugin_directories@.len(),
            result.auto_reload_enabled == self.config.auto_reload,
    {
        let mut size: u64 = 0;
        let mut i: usize = 0;
        while i < self.loaded_plugins.entries.len()
            invariant
                i <= self.loaded_plugins.entries@.len(),
                total_size(self.loaded_plugins.entries@) <= u64::MAX,
                size == total_size(self.loaded_plugins.entries@.take(i as int)),
            decreases self.loaded_plugins.entries@.len() - i,
        {
            proof {
                let plugins = self.loaded_plugins.entries@;
                assert(plugins.take(i + 1).drop_last() =~= plugins.take(i as int));
                lemma_total_size_grows(plugins, i + 1);
            }
            size = size + self.loaded_plugins.entries[i].1.file_size;
            i += 1;
        }
        assert(self.loaded_plugins.entries@.take(i as int) =~= self.loaded_plugins.entries@);
        PluginLoaderStatistics {
            total_plugins: self.loaded_plugins.len(),
            total_libraries: self.loaded_libraries.len(),
            active_watchers: self.file_watchers.len(),
            total_file_size_bytes: size,
            directories_watched: self.config.plugin_directories.len(),
            auto_reload_enabled: self.config.auto_reload,
        }
    }

    /// Cleanup and shutdown: nothing is loaded or watched any longer. The result is the watchers to
    /// stop, each with its file, and the libraries to close.
    pub fn shutdown(&mut self) -> (result: (Vec<(String, u64)>, Vec<(String, u64)>))
        requires
            old(self).wf(),
        ensures
            final(self).wf(),
            final(self).config == old(self).config,
            final(self).loaded_libraries@ == Map::<Seq<char>, u64>::empty(),
            final(self).loaded_plugins@ == Map::<Seq<char>, LoadedPluginInfo>::empty(),
            final(self).file_watchers@ == Map::<Seq<char>, u64>::empty(),
            result.0@ == old(self).file_watchers.entries@,
            result.1@ == old(self).loaded_libraries.entries@,
    {
        let watchers = self.stop_auto_reload();
        let mut libraries: NameMap<u64> = NameMap::new();
        std::mem::swap(&mut libraries, &mut self.loaded_libraries);
        self.loaded_plugins = NameMap::new();
        (watchers, libraries.entries)
    }
}

/// The value of a name, where it has one.
pub open spec fn value_in(m: Map<Seq<char>, u64>, name: Seq<char>) -> Option<u64> {
    if m.contains_key(name) {
        Some(m[name])
    } else {
        None
    }
}

/// A blocked plugin is never loaded, whatever else the configuration says.
pub proof fn law_blocked_is_refused(config: LoaderConfig, info: PluginInfo)
    requires
        text::views(config.blocked_plugins@).contains(info.name@),
    ensures
        refusal(config, info) is Some,
{
}

// ---------------------------------------------------------------------------------------------
// The scanner
// ---------------------------------------------------------------------------------------------

/// Plugin scanner for discovering plugins.
pub struct PluginScanner {
    pub directories: Vec<String>,
}

impl PluginScanner {
    pub fn new(directories: Vec<String>) -> (result: Self)
        ensures
            result.directories == directories,
    {
        PluginScanner { directories }
    }

    /// The plugin files among the files of the directories, in order.
    pub fn scan(&self, files: &Vec<String>) -> (result: Vec<String>)
        ensures
            text::views(result@) == text::views(files@).filter(|p: Seq<char>| is_library_path(p)),
    {
        let ghost all = text::views(files@);
        let ghost wanted = |p: Seq<char>| is_library_path(p);
        let mut found: Vec<String> = Vec::new();
        let mut i: usize = 0;
        proof {
            reveal(Seq::filter);
            assert(text::views(found@) =~= all.take(0).filter(wanted));
        }
        while i < files.len()
            invariant
                i <= files@.len(),
                all == text::views(files@),
                wanted == (|p: Seq<char>| is_library_path(p)),
                text::views(found@) == all.take(i as int).filter(wanted),
            decreases files@.len() - i,
        {
            let ghost before = found@;
            if self.is_plugin_file(files[i].as_str()) {
                found.push(files[i].clone());
                assert(text::views(found@) =~= text::views(before).push(files@[i as int]@));
            }
            proof {
                reveal(Seq::filter);
                assert(all.take(i + 1).drop_last() =~= all.take(i as int));
                assert(all.take(i + 1).last() == files@[i as int]@);
            }
            i += 1;
        }
        assert(all.take(i as int) =~= all);
        found
    }

    pub fn is_plugin_file(&self, path: &str) -> (result: bool)
        ensures
            result == is_library_path(path@),
    {
        is_plugin_path(path)
    }
}

/// The extension of a file is what follows the last dot of its name, and the file is a library by it.
pub proof fn law_extension_follows_the_last_dot(
    directory: Seq<char>,
    stem: Seq<char>,
    ext: Seq<char>,
)
    requires
        stem.len() > 0,
        !stem.contains('/'),
        !ext.contains('/'),
        !ext.contains('.'),
        ext.len() > 0,
    ensures
        extension(directory + seq!['/'] + (stem + seq!['.'] + ext)) == Some(ext),
        extension(stem + seq!['.'] + ext) == Some(ext),
        is_library_path(stem + seq!['.'] + ext) <==> ext == "so"@ || ext == "dylib"@ || ext
            == "dll"@,
        is_library_path(directory + seq!['/'] + (stem + seq!['.'] + ext)) <==> ext == "so"@ || ext
            == "dylib"@ || ext == "dll"@,
{
    let name = stem + seq!['.'] + ext;
    let path = directory + seq!['/'] + name;
    reveal_strlit("..");
    assert forall|j: int| 0 <= j < name.len() implies name[j] != '/' by {
        if j < stem.len() {
            assert(name[j] == stem[j]);
        } else if j > stem.len() {
            assert(name[j] == ext[j - stem.len() - 1]);
        }
    }
    assert(name.last() == ext.last());
    assert(ext[ext.len() - 1] == ext.last());
    assert(path.last() == name.last());
    assert(stripped(name) == name);
    assert(stripped(path) == path);
    lemma_last_position(name, '/', -1);
    lemma_last_position(path, '/', directory.len() as int);
    assert(name.skip(0) =~= name);
    assert(path.skip(directory.len() as int + 1) =~= name);
    assert forall|j: int| stem.len() < j < name.len() implies name[j] != '.' by {
        assert(name[j] == ext[j - stem.len() - 1]);
    }
    lemma_last_position(name, '.', stem.len() as int);
    assert(name.skip(stem.len() as int + 1) =~= ext);
    assert(name != ".."@) by {
        assert(".."@.last() == '.');
    }
}

proof fn lemma_last_position(s: Seq<char>, c: char, p: int)
    requires
        -1 <= p < s.len(),
        p >= 0 ==> s[p] == c,
        forall|j: int| p < j < s.len() ==> s[j] != c,
    ensures
        last_position(s, c) == p,
    decreases s.len(),
{
    if p < s.len() - 1 {
        assert(s[s.len() - 1] != c);
        lemma_last_position(s.drop_last(), c, p);
    }
}

/// A plugin file is accepted exactly where it is there, is a library and is no larger than the
/// configured megabytes.
pub proof fn law_plugin_files_are_checked(
    config: LoaderConfig,
    path: Seq<char>,
    present: bool,
    size: std::result::Result<u64, Seq<char>>,
)
    ensures
        file_fault(config, path, present, size) is None <==> present && is_library_path(path) && (
        size matches Ok(n) && n <= config.max_plugin_memory_mb * 1024 * 1024),
{
}

/// A plugin is loaded exactly where it has a name and a version with a digit, is not blocked, and is
/// listed where there is a list.
pub proof fn law_plugins_are_checked(config: LoaderConfig, info: PluginInfo)
    ensures
        refusal(config, info) is None <==> info.name@.len() > 0 && info.version@.len() > 0 && (
        exists|i: int| 0 <= i < info.version@.len() && '0' <= (#[trigger] info.version@[i]) <= '9')
            && !text::views(config.blocked_plugins@).contains(info.name@) && (
        config.allowed_plugins matches Some(list) ==> text::views(list@).contains(info.name@)),
{
}

/// The sizes of plugins add up.
pub proof fn law_sizes_add_up(
    a: Seq<(String, LoadedPluginInfo)>,
    b: Seq<(String, LoadedPluginInfo)>,
    one: (String, LoadedPluginInfo),
)
    ensures
        total_size(a + b) == total_size(a) + total_size(b),
        total_size(seq![one]) == one.1.file_size,
    decreases b.len(),
{
    let none = Seq::<(String, LoadedPluginInfo)>::empty();
    assert(seq![one].drop_last() =~= none);
    assert(seq![one].last() == one);
    assert(total_size(none) == 0);
    if b.len() == 0 {
        assert(a + b =~= a);
    } else {
        law_sizes_add_up(a, b.drop_last(), one);
        assert((a + b).drop_last() =~= a + b.drop_last());
    }
}

/// A plugin that is unloaded is loaded no more, and the others stay as they were. One that was not
/// loaded cannot be unloaded, and nothing changes.
pub proof fn law_unloading_takes_one_out(
    before: PluginLoader,
    after: PluginLoader,
    name: Seq<char>,
    result: std::result::Result<Released, String>,
    other: Seq<char>,
)
    requires
        unloaded(before, after, name, result),
        other != name,
    ensures
        !after.loaded_plugins@.contains_key(name),
        after.loaded_plugins@.contains_key(other) <==> before.loaded_plugins@.contains_key(other),
        before.loaded_plugins@.contains_key(other) ==> after.loaded_plugins@[other]
            == before.loaded_plugins@[other],
        result is Ok <==> before.loaded_plugins@.contains_key(name),
        result is Err ==> after == before,
        after.config == before.config,
{
}

/// A slash at the end of a path, or a slash and a dot, makes no difference to its last name.
pub proof fn law_trailing_slashes_do_not_count(path: Seq<char>)
    ensures
        last_name(path + seq!['/']) == last_name(path),
        last_name(path + seq!['/', '.']) == last_name(path),
        extension(path + seq!['/']) == extension(path),
        extension(path + seq!['/', '.']) == extension(path),
{
    let a = path + seq!['/'];
    let b = path + seq!['/', '.'];
    assert(a.drop_last() =~= path);
    assert(b.drop_last() =~= a);
    assert(b.last() == '.' && b[b.len() - 2] == '/');
    assert(stripped(a) == stripped(path));
    assert(stripped(b) == stripped(a));
}

} // verus!
