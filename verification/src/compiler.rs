use vstd::prelude::*;

verus! {

/// The file name of cargo manifests.
pub const MANIFEST_FILE: &'static str = "Cargo.toml";

/// The target that Scrypto packages are built for.
pub const BUILD_TARGET: &'static str = "wasm32-unknown-unknown";

/// The contents of a list of strings.
pub open spec fn strings_view(v: Seq<String>) -> Seq<Seq<char>> {
    Seq::new(v.len(), |i: int| v[i]@)
}

/// The compilation profile.
#[derive(Debug, Clone, PartialEq, Eq)]
pub enum Profile {
    Release,
    Debug,
    Test,
    Bench,
    Custom(String),
}

/// The name cargo knows a profile by.
pub open spec fn profile_name(p: Profile) -> Seq<char> {
    match p {
        Profile::Release => "release"@,
        Profile::Debug => "dev"@,
        Profile::Test => "test"@,
        Profile::Bench => "bench"@,
        Profile::Custom(name) => name@,
    }
}

/// The directory cargo puts a profile's artifacts in.
pub open spec fn profile_directory(p: Profile) -> Seq<char> {
    match p {
        Profile::Release => "release"@,
        Profile::Debug => "debug"@,
        Profile::Test => "test"@,
        Profile::Bench => "bench"@,
        Profile::Custom(name) => name@,
    }
}

impl Default for Profile {
    /// The profile used when none is chosen.
    fn default() -> (r: Self)
        ensures
            r == Profile::Release,
    {
        Profile::Release
    }
}

impl Profile {
    /// The cargo arguments that select the profile.
    pub fn as_command_args(&self) -> (r: Vec<String>)
        ensures
            strings_view(r@) == seq!["--profile"@, profile_name(*self)],
    {
        proof {
            reveal_strlit("--profile");
            reveal_strlit("release");
            reveal_strlit("dev");
            reveal_strlit("test");
            reveal_strlit("bench");
        }
        let mut args: Vec<String> = Vec::new();
        args.push(String::from_str("--profile"));
        let name = match self {
            Profile::Release => String::from_str("release"),
            Profile::Debug => String::from_str("dev"),
            Profile::Test => String::from_str("test"),
            Profile::Bench => String::from_str("bench"),
            Profile::Custom(name) => name.clone(),
        };
        args.push(name);
        assert(strings_view(args@) =~= seq!["--profile"@, profile_name(*self)]);
        args
    }

    /// The name of the directory that holds the profile's artifacts.
    pub fn as_directory_name(&self) -> (r: String)
        ensures
            r@ == profile_directory(*self),
    {
        proof {
            reveal_strlit("release");
            reveal_strlit("debug");
            reveal_strlit("test");
            reveal_strlit("bench");
        }
        match self {
            Profile::Release => String::from_str("release"),
            Profile::Debug => String::from_str("debug"),
            Profile::Test => String::from_str("test"),
            Profile::Bench => String::from_str("bench"),
            Profile::Custom(name) => name.clone(),
        }
    }
}

/// What to do with an environment variable of the build.
#[derive(Debug, Clone, PartialEq, Eq)]
pub enum EnvironmentVariableAction {
    /// Sets the variable to the value.
    SetTo(String),
    Unset,
}

/// The value of an environment variable action.
pub enum EnvActionView {
    Assigned(Seq<char>),
    Removed,
}

impl View for EnvironmentVariableAction {
    type V = EnvActionView;

    open spec fn view(&self) -> EnvActionView {
        match self {
            EnvironmentVariableAction::SetTo(v) => EnvActionView::Assigned(v@),
            EnvironmentVariableAction::Unset => EnvActionView::Removed,
        }
    }
}

/// Log levels, from the least to the most verbose.
#[derive(Debug, Clone, Copy, PartialEq, Eq)]
pub enum Level {
    Error,
    Warn,
    Info,
    Debug,
    Trace,
}

/// The rank of a log level: higher is more verbose.
pub open spec fn level_rank(l: Level) -> int {
    match l {
        Level::Error => 0,
        Level::Warn => 1,
        Level::Info => 2,
        Level::Debug => 3,
        Level::Trace => 4,
    }
}

fn level_rank_exec(l: Level) -> (r: u8)
    ensures
        r == level_rank(l),
{
    match l {
        Level::Error => 0,
        Level::Warn => 1,
        Level::Info => 2,
        Level::Debug => 3,
        Level::Trace => 4,
    }
}

/// The input parameters of the Scrypto compiler.
#[derive(Debug, Clone, PartialEq, Eq)]
pub struct ScryptoCompilerInputParams {
    /// Path to the package's manifest (or its directory); the current
    /// directory when not given.
    pub manifest_path: Option<String>,
    /// Where the build puts its artifacts; cargo's default when not given.
    pub target_directory: Option<String>,
    pub profile: Profile,
    /// Environment variables to set or unset, by name, in insertion order.
    pub environment_variables: Vec<(String, EnvironmentVariableAction)>,
    /// Features to enable, without repeats, in insertion order.
    pub features: Vec<String>,
    pub no_default_features: bool,
    pub all_features: bool,
    /// Packages to build, without repeats, in insertion order.
    pub package: Vec<String>,
    /// Extra arguments for `cargo build`, without repeats, in insertion order.
    pub custom_options: Vec<String>,
}

/// The set `v` with `item` added at its end, unless already present.
pub open spec fn set_insert(v: Seq<Seq<char>>, item: Seq<char>) -> Seq<Seq<char>> {
    if v.contains(item) {
        v
    } else {
        v.push(item)
    }
}

/// Adds a string to an insertion-ordered set.
pub fn insert_unique(v: &mut Vec<String>, item: String)
    ensures
        strings_view(final(v)@) == set_insert(strings_view(old(v)@), item@),
{
    let ghost before = strings_view(v@);
    let mut i: usize = 0;
    while i < v.len()
        invariant
            i <= v@.len(),
            strings_view(v@) == before,
            forall|k: int| 0 <= k < i ==> v@[k]@ != item@,
        decreases v@.len() - i,
    {
        if v[i] == item {
            assert(before[i as int] == item@);
            return;
        }
        i = i + 1;
    }
    proof {
        assert forall|k: int| 0 <= k < before.len() implies before[k] != item@ by {
            assert(before[k] == v@[k]@);
        }
    }
    v.push(item);
    assert(strings_view(v@) =~= before.push(item@));
}

/// The names of a list of environment variable actions.
pub open spec fn env_names(v: Seq<(String, EnvironmentVariableAction)>) -> Seq<Seq<char>> {
    Seq::new(v.len(), |i: int| v[i].0@)
}

/// The contents of a list of environment variable actions.
pub open spec fn env_view(v: Seq<(String, EnvironmentVariableAction)>) -> Seq<(Seq<char>, EnvActionView)> {
    Seq::new(v.len(), |i: int| (v[i].0@, v[i].1@))
}

/// Whether `i` is the first position of `name` in the actions.
pub open spec fn first_with_name(v: Seq<(Seq<char>, EnvActionView)>, name: Seq<char>, i: int) -> bool {
    &&& 0 <= i < v.len()
    &&& v[i].0 == name
    &&& forall|k: int| 0 <= k < i ==> v[k].0 != name
}

/// The actions with the one for `name` set to `action`: replaced in place if
/// `name` has one, else appended.
pub open spec fn env_insert(
    v: Seq<(Seq<char>, EnvActionView)>,
    name: Seq<char>,
    action: EnvActionView,
) -> Seq<(Seq<char>, EnvActionView)> {
    if exists|i: int| first_with_name(v, name, i) {
        v.update(choose|i: int| first_with_name(v, name, i), (name, action))
    } else {
        v.push((name, action))
    }
}

/// The feature that builds a package without its schema.
pub const NO_SCHEMA_FEATURE: &'static str = "scrypto/no-schema";

/// The contents of a list of string slices.
pub open spec fn strs_view(v: Seq<&str>) -> Seq<Seq<char>> {
    Seq::new(v.len(), |i: int| v[i]@)
}

/// The set `v` with each of `items` added in turn.
pub open spec fn set_extend(v: Seq<Seq<char>>, items: Seq<Seq<char>>) -> Seq<Seq<char>>
    decreases items.len(),
{
    if items.len() == 0 {
        v
    } else {
        set_insert(set_extend(v, items.drop_last()), items.last())
    }
}

/// The features with those of every log level up to `l` added, from the
/// least verbose up.
pub open spec fn log_features(v: Seq<Seq<char>>, l: Level) -> Seq<Seq<char>> {
    let rank = level_rank(l);
    let v0 = set_insert(v, "scrypto/log-error"@);
    let v1 = if rank >= 1 { set_insert(v0, "scrypto/log-warn"@) } else { v0 };
    let v2 = if rank >= 2 { set_insert(v1, "scrypto/log-info"@) } else { v1 };
    let v3 = if rank >= 3 { set_insert(v2, "scrypto/log-debug"@) } else { v2 };
    if rank >= 4 { set_insert(v3, "scrypto/log-trace"@) } else { v3 }
}

/// The cargo feature that enables the logs of a level.
pub open spec fn log_feature(l: Level) -> Seq<char> {
    match l {
        Level::Error => "scrypto/log-error"@,
        Level::Warn => "scrypto/log-warn"@,
        Level::Info => "scrypto/log-info"@,
        Level::Debug => "scrypto/log-debug"@,
        Level::Trace => "scrypto/log-trace"@,
    }
}

proof fn lemma_set_insert_contains(v: Seq<Seq<char>>, item: Seq<char>)
    ensures
        forall|y: Seq<char>| #[trigger] set_insert(v, item).contains(y) <==> (v.contains(y) || y == item),
        set_insert(v, item).len() >= v.len(),
        set_insert(v, item).take(v.len() as int) == v,
{
    if !v.contains(item) {
        let w = v.push(item);
        assert(w[v.len() as int] == item);
        assert forall|y: Seq<char>| #[trigger] w.contains(y) <==> (v.contains(y) || y == item) by {
            if v.contains(y) {
                let k = choose|k: int| 0 <= k < v.len() && v[k] == y;
                assert(w[k] == y);
            }
            if w.contains(y) && y != item {
                let k = choose|k: int| 0 <= k < w.len() && w[k] == y;
                assert(v[k] == y);
            }
        }
        assert(w.take(v.len() as int) =~= v);
    } else {
        assert(v.take(v.len() as int) =~= v);
    }
}

/// Setting a log level enables the logs of that level and of every less
/// verbose one, adds no feature of a more verbose level, keeps every feature
/// already set in its place, and adds nothing but log features.
pub proof fn lemma_log_level_features(v: Seq<Seq<char>>, l: Level)
    ensures
        forall|x: Level|
            level_rank(x) <= level_rank(l) ==> log_features(v, l).contains(#[trigger] log_feature(x)),
        forall|x: Level|
            level_rank(x) > level_rank(l) ==> (log_features(v, l).contains(#[trigger] log_feature(x))
                <==> v.contains(log_feature(x))),
        log_features(v, l).contains(log_feature(l)),
        log_features(v, l).take(v.len() as int) == v,
        forall|s: Seq<char>|
            #[trigger] log_features(v, l).contains(s) ==> v.contains(s) || exists|x: Level|
                level_rank(x) <= level_rank(l) && s == #[trigger] log_feature(x),
{
    reveal_strlit("scrypto/log-error");
    reveal_strlit("scrypto/log-warn");
    reveal_strlit("scrypto/log-info");
    reveal_strlit("scrypto/log-debug");
    reveal_strlit("scrypto/log-trace");
    let e = log_feature(Level::Error);
    let w = log_feature(Level::Warn);
    let i = log_feature(Level::Info);
    let d = log_feature(Level::Debug);
    let t = log_feature(Level::Trace);
    assert(e[12] == 'e' && w[12] == 'w' && i[12] == 'i' && d[12] == 'd' && t[12] == 't');
    let rank = level_rank(l);
    let v0 = set_insert(v, e);
    let v1 = if rank >= 1 { set_insert(v0, w) } else { v0 };
    let v2 = if rank >= 2 { set_insert(v1, i) } else { v1 };
    let v3 = if rank >= 3 { set_insert(v2, d) } else { v2 };
    let v4 = if rank >= 4 { set_insert(v3, t) } else { v3 };
    assert(log_features(v, l) == v4);
    lemma_set_insert_contains(v, e);
    lemma_set_insert_contains(v0, w);
    lemma_set_insert_contains(v1, i);
    lemma_set_insert_contains(v2, d);
    lemma_set_insert_contains(v3, t);
    assert(v0.take(v.len() as int) == v);
    assert(v1.take(v0.len() as int) == v0);
    assert(v2.take(v1.len() as int) == v1);
    assert(v3.take(v2.len() as int) == v2);
    assert(v4.take(v3.len() as int) == v3);
    assert(v4.take(v.len() as int) =~= v);
    assert forall|x: Level| level_rank(x) <= level_rank(l) implies v4.contains(
        #[trigger] log_feature(x),
    ) by {
        match x {
            Level::Error => {},
            Level::Warn => {},
            Level::Info => {},
            Level::Debug => {},
            Level::Trace => {},
        }
    }
    assert forall|x: Level| level_rank(x) > level_rank(l) implies (v4.contains(
        #[trigger] log_feature(x),
    ) <==> v.contains(log_feature(x))) by {
        match x {
            Level::Error => {},
            Level::Warn => {},
            Level::Info => {},
            Level::Debug => {},
            Level::Trace => {},
        }
    }
    assert forall|s: Seq<char>| #[trigger] v4.contains(s) implies v.contains(s) || exists|x: Level|
        level_rank(x) <= level_rank(l) && s == #[trigger] log_feature(x) by {
        if !v.contains(s) {
            if s == e {
                assert(level_rank(Level::Error) <= level_rank(l) && s == log_feature(Level::Error));
            } else if s == w {
                assert(level_rank(Level::Warn) <= level_rank(l) && s == log_feature(Level::Warn));
            } else if s == i {
                assert(level_rank(Level::Info) <= level_rank(l) && s == log_feature(Level::Info));
            } else if s == d {
                assert(level_rank(Level::Debug) <= level_rank(l) && s == log_feature(Level::Debug));
            } else {
                assert(level_rank(Level::Trace) <= level_rank(l) && s == log_feature(Level::Trace));
            }
        }
    }
}

/// Builds the input parameters of the Scrypto compiler.
pub struct ScryptoCompilerBuilder {
    pub input_params: ScryptoCompilerInputParams,
}

impl ScryptoCompilerBuilder {
    /// A builder with default parameters: nothing chosen, release profile.
    pub fn new() -> (r: Self)
        ensures
            r.input_params.manifest_path is None,
            r.input_params.target_directory is None,
            r.input_params.profile == Profile::Release,
            r.input_params.environment_variables@.len() == 0,
            r.input_params.features@.len() == 0,
            !r.input_params.no_default_features,
            !r.input_params.all_features,
            r.input_params.package@.len() == 0,
            r.input_params.custom_options@.len() == 0,
    {
        ScryptoCompilerBuilder {
            input_params: ScryptoCompilerInputParams {
                manifest_path: None,
                target_directory: None,
                profile: Profile::Release,
                environment_variables: Vec::new(),
                features: Vec::new(),
                no_default_features: false,
                all_features: false,
                package: Vec::new(),
                custom_options: Vec::new(),
            },
        }
    }

    /// Chooses the package's manifest (or its directory).
    pub fn manifest_path(&mut self, path: String) -> (r: &mut Self)
        ensures
            *final(self) == *final(r),
            r.input_params == (ScryptoCompilerInputParams {
                manifest_path: Some(path),
                ..old(self).input_params
            }),
    {
        self.input_params.manifest_path = Some(path);
        self
    }

    /// Chooses where the build puts its artifacts.
    pub fn target_directory(&mut self, directory: String) -> (r: &mut Self)
        ensures
            *final(self) == *final(r),
            r.input_params == (ScryptoCompilerInputParams {
                target_directory: Some(directory),
                ..old(self).input_params
            }),
    {
        self.input_params.target_directory = Some(directory);
        self
    }

    /// Chooses the compilation profile.
    pub fn profile(&mut self, profile: Profile) -> (r: &mut Self)
        ensures
            *final(self) == *final(r),
            r.input_params == (ScryptoCompilerInputParams { profile, ..old(self).input_params }),
    {
        self.input_params.profile = profile;
        self
    }

    /// Sets or unsets an environment variable of the build; a later call for
    /// the same name replaces the earlier action in its place.
    pub fn env(&mut self, name: &str, action: EnvironmentVariableAction) -> (r: &mut Self)
        ensures
            *final(self) == *final(r),
            env_view(r.input_params.environment_variables@) == env_insert(
                env_view(old(self).input_params.environment_variables@),
                name@,
                action@,
            ),
            r.input_params == (ScryptoCompilerInputParams {
                environment_variables: r.input_params.environment_variables,
                ..old(self).input_params
            }),
    {
        let ghost before = env_view(self.input_params.environment_variables@);
        let ghost action_view = action@;
        let key = String::from_str(name);
        let mut i: usize = 0;
        while i < self.input_params.environment_variables.len()
            invariant
                i <= self.input_params.environment_variables@.len(),
                key@ == name@,
                action@ == action_view,
                env_view(self.input_params.environment_variables@) == before,
                self.input_params == old(self).input_params,
                forall|k: int| 0 <= k < i ==> self.input_params.environment_variables@[k].0@ != name@,
            decreases self.input_params.environment_variables@.len() - i,
        {
            if self.input_params.environment_variables[i].0 == key {
                let ghost at = i as int;
                proof {
                    assert(before[at].0 == name@);
                    assert forall|k: int| 0 <= k < at implies before[k].0 != name@ by {
                        assert(before[k].0 == self.input_params.environment_variables@[k].0@);
                    }
                    assert(first_with_name(before, name@, at));
                    let c = choose|j: int| first_with_name(before, name@, j);
                    if c < at {
                        assert(before[c].0 == name@);
                    } else if c > at {
                        assert(before[at].0 != name@);
                    }
                    assert(c == at);
                }
                let ghost prev = self.input_params.environment_variables@;
                let entry = (key, action);
                let ghost entry_view = entry;
                let _replaced = self.input_params.environment_variables.remove(i);
                self.input_params.environment_variables.insert(i, entry);
                assert(self.input_params.environment_variables@ =~= prev.update(at, entry_view));
                assert(env_view(self.input_params.environment_variables@) =~= before.update(
                    at,
                    (name@, action_view),
                ));
                return self;
            }
            i = i + 1;
        }
        proof {
            assert forall|k: int| 0 <= k < before.len() implies before[k].0 != name@ by {
                assert(before[k].0 == self.input_params.environment_variables@[k].0@);
            }
            assert(!exists|j: int| first_with_name(before, name@, j));
        }
        self.input_params.environment_variables.push((key, action));
        assert(env_view(self.input_params.environment_variables@) =~= before.push(
            (name@, action_view),
        ));
        self
    }

    /// Enables a cargo feature of the build.
    pub fn feature(&mut self, name: &str) -> (r: &mut Self)
        ensures
            *final(self) == *final(r),
            strings_view(r.input_params.features@) == set_insert(
                strings_view(old(self).input_params.features@),
                name@,
            ),
            r.input_params == (ScryptoCompilerInputParams {
                features: r.input_params.features,
                ..old(self).input_params
            }),
    {
        insert_unique(&mut self.input_params.features, String::from_str(name));
        self
    }

    /// Passes `--no-default-features` to the build.
    pub fn no_default_features(&mut self) -> (r: &mut Self)
        ensures
            *final(self) == *final(r),
            r.input_params == (ScryptoCompilerInputParams {
                no_default_features: true,
                ..old(self).input_params
            }),
    {
        self.input_params.no_default_features = true;
        self
    }

    /// Passes the all-features flag to the build.
    pub fn all_features(&mut self) -> (r: &mut Self)
        ensures
            *final(self) == *final(r),
            r.input_params == (ScryptoCompilerInputParams {
                all_features: true,
                ..old(self).input_params
            }),
    {
        self.input_params.all_features = true;
        self
    }

    /// Adds a package to build.
    pub fn package(&mut self, name: &str) -> (r: &mut Self)
        ensures
            *final(self) == *final(r),
            strings_view(r.input_params.package@) == set_insert(
                strings_view(old(self).input_params.package@),
                name@,
            ),
            r.input_params == (ScryptoCompilerInputParams {
                package: r.input_params.package,
                ..old(self).input_params
            }),
    {
        insert_unique(&mut self.input_params.package, String::from_str(name));
        self
    }

    /// Enables the tracing of the Scrypto macros.
    pub fn scrypto_macro_trace(&mut self) -> (r: &mut Self)
        ensures
            *final(self) == *final(r),
            strings_view(r.input_params.features@) == set_insert(
                strings_view(old(self).input_params.features@),
                "scrypto/trace"@,
            ),
            r.input_params == (ScryptoCompilerInputParams {
                features: r.input_params.features,
                ..old(self).input_params
            }),
    {
        insert_unique(&mut self.input_params.features, String::from_str("scrypto/trace"));
        self
    }

    /// Enables the log features of every level up to `log_level`.
    pub fn log_level(&mut self, log_level: Level) -> (r: &mut Self)
        ensures
            *final(self) == *final(r),
            strings_view(r.input_params.features@) == log_features(
                strings_view(old(self).input_params.features@),
                log_level,
            ),
            r.input_params == (ScryptoCompilerInputParams {
                features: r.input_params.features,
                ..old(self).input_params
            }),
    {
        let rank = level_rank_exec(log_level);
        insert_unique(&mut self.input_params.features, String::from_str("scrypto/log-error"));
        if rank >= 1 {
            insert_unique(&mut self.input_params.features, String::from_str("scrypto/log-warn"));
        }
        if rank >= 2 {
            insert_unique(&mut self.input_params.features, String::from_str("scrypto/log-info"));
        }
        if rank >= 3 {
            insert_unique(&mut self.input_params.features, String::from_str("scrypto/log-debug"));
        }
        if rank >= 4 {
            insert_unique(&mut self.input_params.features, String::from_str("scrypto/log-trace"));
        }
        self
    }

    /// Builds without the package schema.
    pub fn no_schema(&mut self) -> (r: &mut Self)
        ensures
            *final(self) == *final(r),
            strings_view(r.input_params.features@) == set_insert(
                strings_view(old(self).input_params.features@),
                NO_SCHEMA_FEATURE@,
            ),
            r.input_params == (ScryptoCompilerInputParams {
                features: r.input_params.features,
                ..old(self).input_params
            }),
    {
        insert_unique(&mut self.input_params.features, String::from_str(NO_SCHEMA_FEATURE));
        self
    }

    /// Builds with coverage instrumentation.
    pub fn coverage(&mut self) -> (r: &mut Self)
        ensures
            *final(self) == *final(r),
            strings_view(r.input_params.features@) == set_insert(
                strings_view(old(self).input_params.features@),
                "scrypto/coverage"@,
            ),
            r.input_params == (ScryptoCompilerInputParams {
                features: r.input_params.features,
                ..old(self).input_params
            }),
    {
        insert_unique(&mut self.input_params.features, String::from_str("scrypto/coverage"));
        self
    }

    /// Adds arguments passed to `cargo build` as they are; each argument is a
    /// separate entry.
    pub fn custom_options(&mut self, options: &[&str]) -> (r: &mut Self)
        ensures
            *final(self) == *final(r),
            strings_view(r.input_params.custom_options@) == set_extend(
                strings_view(old(self).input_params.custom_options@),
                strs_view(options@),
            ),
            r.input_params == (ScryptoCompilerInputParams {
                custom_options: r.input_params.custom_options,
                ..old(self).input_params
            }),
    {
        let ghost start = strings_view(self.input_params.custom_options@);
        let mut i: usize = 0;
        while i < options.len()
            invariant
                i <= options@.len(),
                strings_view(self.input_params.custom_options@) == set_extend(
                    start,
                    strs_view(options@).take(i as int),
                ),
                self.input_params == (ScryptoCompilerInputParams {
                    custom_options: self.input_params.custom_options,
                    ..old(self).input_params
                }),
            decreases options@.len() - i,
        {
            assert(strs_view(options@).take(i + 1).drop_last() =~= strs_view(options@).take(
                i as int,
            ));
            insert_unique(&mut self.input_params.custom_options, String::from_str(options[i]));
            i = i + 1;
        }
        assert(strs_view(options@).take(i as int) =~= strs_view(options@));
        self
    }
}


/// The errors of the Scrypto compiler. Outside values are held as plain
/// values: an I/O error by its message, an exit status by its code.
#[derive(Debug, Clone, PartialEq, Eq)]
pub enum ScryptoCompilerError {
    /// An I/O error which occurred during compilation.
    IOError(String),
    /// The build's standard error output and exit code.
    CargoBuildFailure(String, Option<i32>),
    /// The manifest for which `cargo metadata` failed, and its exit code.
    CargoMetadataFailure(String, Option<i32>),
    /// The manifest whose metadata is not JSON or has no target directory.
    CargoTargetDirectoryResolutionError(String),
    /// The manifest that could not be loaded.
    CargoManifestLoadFailure(String),
    /// The manifest that could not be found.
    CargoManifestFileNotFound(String),
    /// The message of a WASM optimization error.
    WasmOptimizationError(String),
    /// The message of a schema extraction error.
    ExtractSchema(String),
    /// The manifest is a workspace.
    CargoManifestIsWorkspace(String),
    /// The manifest is not a workspace.
    CargoManifestNoWorkspace(String),
}

/// The position of the last `c` in `s`, or -1.
pub open spec fn last_index_of(s: Seq<char>, c: char) -> int
    decreases s.len(),
{
    if s.len() == 0 {
        -1
    } else if s.last() == c {
        s.len() - 1
    } else {
        last_index_of(s.drop_last(), c)
    }
}

/// `base` with `item` pushed onto it as a path: an absolute `item` replaces
/// it, else a separator is put between them where `base` lacks one.
pub open spec fn path_join(base: Seq<char>, item: Seq<char>) -> Seq<char> {
    if item.len() > 0 && item[0] == '/' {
        item
    } else if base.len() == 0 || base.last() == '/' {
        base + item
    } else {
        base + seq!['/'] + item
    }
}

/// `s` without what follows its last component: trailing separators, and
/// trailing `.` components, which a path's components leave out.
pub open spec fn trim_path_end(s: Seq<char>) -> Seq<char>
    decreases s.len(),
{
    if s.len() > 0 && s.last() == '/' {
        trim_path_end(s.drop_last())
    } else if s.len() >= 2 && s.last() == '.' && s[s.len() - 2] == '/' {
        trim_path_end(s.drop_last())
    } else {
        s
    }
}

/// Whether the last component of path `p` is `name`.
pub open spec fn ends_with_component(p: Seq<char>, name: Seq<char>) -> bool {
    let t = trim_path_end(p);
    ||| t == name
    ||| (t.len() > name.len() && t.subrange(t.len() - name.len(), t.len() as int) == name && t[t.len()
        - name.len() - 1] == '/')
}

/// The file name `name` with its extension set to `wasm`: what follows its
/// last dot (not a leading one) is replaced; `..` has no file name and stays.
pub open spec fn wasm_file_name(name: Seq<char>) -> Seq<char> {
    if name == ".."@ {
        name
    } else if last_index_of(name, '.') > 0 {
        name.subrange(0, last_index_of(name, '.')) + ".wasm"@
    } else {
        name + ".wasm"@
    }
}

fn last_index_of_exec(s: &str, c: char) -> (r: Option<usize>)
    ensures
        match r {
            Some(k) => k == last_index_of(s@, c) && k < s@.len(),
            None => last_index_of(s@, c) == -1,
        },
{
    let n = s.unicode_len();
    let mut k: usize = n;
    assert(s@.take(n as int) =~= s@);
    while k > 0
        invariant
            k <= n == s@.len(),
            last_index_of(s@, c) == last_index_of(s@.take(k as int), c),
        decreases k,
    {
        assert(s@.take(k as int).drop_last() =~= s@.take(k - 1));
        if s.get_char(k - 1) == c {
            return Some(k - 1);
        }
        k = k - 1;
    }
    None
}

/// Pushes `item` onto the path `base`.
pub fn path_join_exec(base: &str, item: &str) -> (r: String)
    ensures
        r@ == path_join(base@, item@),
{
    proof {
        reveal_strlit("/");
    }
    let n = item.unicode_len();
    if n > 0 && item.get_char(0) == '/' {
        return String::from_str(item);
    }
    let m = base.unicode_len();
    let mut r = String::from_str(base);
    if m > 0 && base.get_char(m - 1) != '/' {
        r.append("/");
    }
    r.append(item);
    r
}

/// Whether the last component of the path `p` is `name`.
pub fn ends_with_component_exec(p: &str, name: &str) -> (r: bool)
    ensures
        r == ends_with_component(p@, name@),
{
    let n = p.unicode_len();
    let mut k: usize = n;
    assert(p@.take(n as int) =~= p@);
    while k > 0 && (p.get_char(k - 1) == '/' || (k >= 2 && p.get_char(k - 1) == '.'
        && p.get_char(k - 2) == '/'))
        invariant
            k <= n == p@.len(),
            trim_path_end(p@) == trim_path_end(p@.take(k as int)),
        decreases k,
    {
        assert(p@.take(k as int).drop_last() =~= p@.take(k - 1));
        assert(k >= 2 ==> p@.take(k as int)[k - 2] == p@[k - 2]);
        k = k - 1;
    }
    assert(p@.take(n as int) =~= p@);
    let ghost t = p@.take(k as int);
    assert(k >= 2 ==> t[k - 2] == p@[k - 2]);
    assert(trim_path_end(t) == t);
    let m = name.unicode_len();
    let whole = String::from_str(p.substring_char(0, k));
    let wanted = String::from_str(name);
    if whole == wanted {
        return true;
    }
    if k > m {
        let tail = String::from_str(p.substring_char(k - m, k));
        assert(t.subrange(t.len() - m, t.len() as int) =~= p@.subrange(k - m, k as int));
        if tail == wanted && p.get_char(k - m - 1) == '/' {
            return true;
        }
    }
    false
}

/// Sets the extension of the file name `name` to `wasm`.
pub fn wasm_file_name_exec(name: &str) -> (r: String)
    ensures
        r@ == wasm_file_name(name@),
{
    let whole = String::from_str(name);
    let parent_dir = String::from_str("..");
    if whole == parent_dir {
        return whole;
    }
    match last_index_of_exec(name, '.') {
        Some(k) => {
            if k > 0 {
                let mut r = String::from_str(name.substring_char(0, k));
                r.append(".wasm");
                r
            } else {
                let mut r = whole;
                r.append(".wasm");
                r
            }
        },
        None => {
            let mut r = whole;
            r.append(".wasm");
            r
        },
    }
}

/// What the build needs from a package's cargo manifest.
#[derive(Debug, Clone, PartialEq, Eq)]
pub struct ManifestInfo {
    /// The members of the manifest's workspace; empty where it has none.
    pub workspace_members: Vec<String>,
    /// The name of the library target, where the manifest gives one.
    pub lib_name: Option<String>,
    /// The package's name, where the manifest has a package.
    pub package_name: Option<String>,
}

/// `s` with each `-` replaced by `_`.
pub open spec fn dashes_to_underscores(s: Seq<char>) -> Seq<char> {
    Seq::new(s.len(), |i: int| if s[i] == '-' { '_' } else { s[i] })
}

/// The name of the WASM file a manifest builds, where it names one.
pub open spec fn wasm_name(m: ManifestInfo) -> Option<Seq<char>> {
    match m.lib_name {
        Some(name) => Some(name@),
        None => match m.package_name {
            Some(name) => Some(dashes_to_underscores(name@)),
            None => None,
        },
    }
}

/// Turning dashes into underscores keeps the length, puts `_` wherever `s`
/// has `-`, keeps every other character in its place, leaves no `-`, and
/// treats each character on its own: a name split in two parts is turned
/// part by part.
pub proof fn lemma_dashes_to_underscores(s: Seq<char>, t: Seq<char>)
    ensures
        dashes_to_underscores(s).len() == s.len(),
        forall|i: int| 0 <= i < s.len() && s[i] == '-' ==> #[trigger] dashes_to_underscores(s)[i] == '_',
        forall|i: int| 0 <= i < s.len() && s[i] != '-' ==> #[trigger] dashes_to_underscores(s)[i] == s[i],
        !dashes_to_underscores(s).contains('-'),
        dashes_to_underscores(s + t) == dashes_to_underscores(s) + dashes_to_underscores(t),
{
    let r = dashes_to_underscores(s);
    if r.contains('-') {
        let k = choose|k: int| 0 <= k < r.len() && r[k] == '-';
        assert(r[k] == (if s[k] == '-' { '_' } else { s[k] }));
    }
    assert(dashes_to_underscores(s + t) =~= dashes_to_underscores(s) + dashes_to_underscores(t));
}

/// The WASM file named after a package (a manifest without a library name)
/// holds no `-`: each `-` of the package name is an `_` there.
pub proof fn lemma_wasm_name_from_package(m: ManifestInfo)
    requires
        m.lib_name is None,
        m.package_name is Some,
    ensures
        wasm_name(m) matches Some(n) && n.len() == m.package_name->0@.len() && !n.contains('-')
            && forall|i: int|
            0 <= i < n.len() ==> #[trigger] n[i] == (if m.package_name->0@[i] == '-' {
                '_'
            } else {
                m.package_name->0@[i]
            }),
{
    lemma_dashes_to_underscores(m.package_name->0@, Seq::empty());
}

fn dashes_to_underscores_exec(s: &str) -> (r: String)
    ensures
        r@ == dashes_to_underscores(s@),
{
    let n = s.unicode_len();
    let mut r = String::new();
    let mut i: usize = 0;
    while i < n
        invariant
            i <= n == s@.len(),
            r@ == dashes_to_underscores(s@.take(i as int)),
        decreases n - i,
    {
        let c = s.get_char(i);
        if c == '-' {
            r.append("_");
        } else {
            let one = s.substring_char(i, i + 1);
            r.append(one);
        }
        proof {
            reveal_strlit("_");
        }
        assert(r@ =~= dashes_to_underscores(s@.take(i + 1)));
        i = i + 1;
    }
    assert(s@.take(n as int) =~= s@);
    r
}

/// The path of a manifest: the given path, with the manifest file name
/// pushed onto it unless it already ends with it; else the manifest file in
/// the current directory.
pub open spec fn manifest_path_for(given: Option<String>, current_dir: Seq<char>) -> Seq<char> {
    match given {
        Some(path) => if ends_with_component(path@, MANIFEST_FILE@) {
            path@
        } else {
            path_join(path@, MANIFEST_FILE@)
        },
        None => path_join(current_dir, MANIFEST_FILE@),
    }
}

/// The directory of a profile's WASM artifacts under a target directory.
pub open spec fn binary_directory(target_directory: Seq<char>, profile: Profile) -> Seq<char> {
    path_join(path_join(target_directory, BUILD_TARGET@), profile_directory(profile))
}

/// Whether `r` is what finding the WASM file of a manifest gives: its path,
/// or the error that stops it, naming the manifest.
pub open spec fn is_target_binary_path(
    r: Result<String, ScryptoCompilerError>,
    manifest_path: Seq<char>,
    binary_directory: Seq<char>,
    m: ManifestInfo,
) -> bool {
    if m.workspace_members@.len() > 0 {
        r matches Err(ScryptoCompilerError::CargoManifestIsWorkspace(p)) && p@ == manifest_path
    } else {
        match wasm_name(m) {
            Some(name) => (r matches Ok(path) && path@ == path_join(
                binary_directory,
                wasm_file_name(name),
            )),
            None => (r matches Err(ScryptoCompilerError::CargoManifestLoadFailure(p)) && p@
                == manifest_path),
        }
    }
}

/// What a JSON document holds as a string under `field` of its top-level
/// object; `None` where the bytes are not JSON, the document is not an
/// object, or the field is absent or not a string.
pub uninterp spec fn json_string_field(bytes: Seq<u8>, field: Seq<char>) -> Option<Seq<char>>;

/// Reads a string field of a JSON object with `serde_json::from_slice` into a
/// `serde_json::Value`, then `as_object`, `get` and `as_str`. The contract
/// only ties the result to the arguments through `json_string_field`; JSON
/// parsing is not stated.
#[verifier::external_body]
fn json_object_string_field(bytes: &[u8], field: &str) -> (r: Option<String>)
    ensures
        match r {
            Some(v) => json_string_field(bytes@, field@) == Some(v@),
            None => json_string_field(bytes@, field@) is None,
        },
{
    let parsed = match serde_json::from_slice::<serde_json::Value>(bytes) {
        Ok(parsed) => parsed,
        Err(_) => return None,
    };
    let value = match parsed.as_object() {
        Some(object) => object.get(field)?,
        None => return None,
    };
    value.as_str().map(str::to_owned)
}

/// A copy of an environment variable action.
pub fn clone_action(a: &EnvironmentVariableAction) -> (r: EnvironmentVariableAction)
    ensures
        r@ == a@,
{
    match a {
        EnvironmentVariableAction::SetTo(v) => EnvironmentVariableAction::SetTo(v.clone()),
        EnvironmentVariableAction::Unset => EnvironmentVariableAction::Unset,
    }
}

/// The cargo command line of one build phase: its arguments in order, and
/// the environment variables it sets or unsets, in order.
#[derive(Debug, Clone, PartialEq, Eq)]
pub struct CargoCommand {
    pub args: Vec<String>,
    pub envs: Vec<(String, EnvironmentVariableAction)>,
}

/// `flag` before each of `values`.
pub open spec fn flag_pairs(flag: Seq<char>, values: Seq<Seq<char>>) -> Seq<Seq<char>>
    decreases values.len(),
{
    if values.len() == 0 {
        Seq::empty()
    } else {
        flag_pairs(flag, values.drop_last()) + seq![flag, values.last()]
    }
}

/// `s` without the items equal to `x`.
pub open spec fn without_value(s: Seq<Seq<char>>, x: Seq<char>) -> Seq<Seq<char>>
    decreases s.len(),
{
    if s.len() == 0 {
        s
    } else if s.last() == x {
        without_value(s.drop_last(), x)
    } else {
        without_value(s.drop_last(), x).push(s.last())
    }
}

/// The feature arguments of a build: `--features` before each chosen
/// feature other than the no-schema one, then `--features` and the
/// no-schema feature for a build without schema.
pub open spec fn feature_args(features: Seq<Seq<char>>, no_schema: bool) -> Seq<Seq<char>> {
    flag_pairs("--features"@, without_value(features, NO_SCHEMA_FEATURE@)) + if no_schema {
        seq!["--features"@, NO_SCHEMA_FEATURE@]
    } else {
        Seq::empty()
    }
}

proof fn lemma_without_value_excludes(s: Seq<Seq<char>>, x: Seq<char>)
    ensures
        !without_value(s, x).contains(x),
    decreases s.len(),
{
    if s.len() > 0 {
        lemma_without_value_excludes(s.drop_last(), x);
        let r = without_value(s.drop_last(), x);
        if s.last() != x {
            assert forall|i: int| 0 <= i < r.push(s.last()).len() implies r.push(s.last())[i] != x by {
                if i < r.len() {
                    assert(r.push(s.last())[i] == r[i]);
                }
            }
        }
    }
}

/// `flag` before each of `values`: the flag at each even position, the
/// values in order at the odd ones.
pub proof fn lemma_flag_pairs_shape(flag: Seq<char>, values: Seq<Seq<char>>)
    ensures
        flag_pairs(flag, values).len() == 2 * values.len(),
        forall|i: int|
            0 <= i < values.len() ==> #[trigger] flag_pairs(flag, values)[2 * i] == flag,
        forall|i: int|
            #![trigger values[i]]
            0 <= i < values.len() ==> flag_pairs(flag, values)[2 * i + 1] == values[i],
    decreases values.len(),
{
    if values.len() > 0 {
        let rest = values.drop_last();
        lemma_flag_pairs_shape(flag, rest);
        let f = flag_pairs(flag, values);
        let p = flag_pairs(flag, rest);
        assert(f == p + seq![flag, values.last()]);
        assert forall|i: int| 0 <= i < values.len() implies #[trigger] f[2 * i] == flag by {
            if i < values.len() - 1 {
                assert(p[2 * i] == flag);
                assert(f[2 * i] == p[2 * i]);
            } else {
                assert(f[2 * i] == seq![flag, values.last()][0]);
            }
        }
        assert forall|i: int| #![trigger values[i]] 0 <= i < values.len() implies f[2 * i + 1]
            == values[i] by {
            if i < values.len() - 1 {
                assert(rest[i] == values[i]);
                assert(f[2 * i + 1] == p[2 * i + 1]);
            } else {
                assert(f[2 * i + 1] == seq![flag, values.last()][1]);
            }
        }
    }
}

proof fn lemma_flag_pairs_contains(flag: Seq<char>, values: Seq<Seq<char>>, x: Seq<char>)
    requires
        flag_pairs(flag, values).contains(x),
    ensures
        x == flag || values.contains(x),
{
    lemma_flag_pairs_shape(flag, values);
    let f = flag_pairs(flag, values);
    let k = choose|k: int| 0 <= k < f.len() && f[k] == x;
    let i = k / 2;
    assert(values[i] == values[i]);
    assert(f[2 * i] == flag && f[2 * i + 1] == values[i]);
    if k % 2 == 1 {
        assert(k == 2 * i + 1);
        assert(values[i] == x);
    } else {
        assert(k == 2 * i);
    }
}

/// Every `--features` of a build is followed by a feature, and the
/// no-schema feature is passed, after its own `--features`, exactly when the
/// build is without schema, whatever features were chosen.
pub proof fn lemma_feature_args_schema(features: Seq<Seq<char>>, no_schema: bool)
    ensures
        feature_args(features, no_schema).len() % 2 == 0,
        forall|i: int|
            0 <= i < feature_args(features, no_schema).len() / 2 ==> #[trigger] feature_args(
                features,
                no_schema,
            )[2 * i] == "--features"@,
        feature_args(features, no_schema).contains(NO_SCHEMA_FEATURE@) <==> no_schema,
        no_schema ==> feature_args(features, no_schema).subrange(
            feature_args(features, no_schema).len() - 2,
            feature_args(features, no_schema).len() as int,
        ) == seq!["--features"@, NO_SCHEMA_FEATURE@],
{
    reveal_strlit("--features");
    reveal_strlit("scrypto/no-schema");
    let kept = without_value(features, NO_SCHEMA_FEATURE@);
    let pairs = flag_pairs("--features"@, kept);
    let tail: Seq<Seq<char>> = if no_schema {
        seq!["--features"@, NO_SCHEMA_FEATURE@]
    } else {
        Seq::empty()
    };
    let all = feature_args(features, no_schema);
    assert(all == pairs + tail);
    lemma_flag_pairs_shape("--features"@, kept);
    lemma_without_value_excludes(features, NO_SCHEMA_FEATURE@);
    assert forall|i: int| 0 <= i < all.len() / 2 implies #[trigger] all[2 * i] == "--features"@ by {
        if i < kept.len() {
            assert(kept[i] == kept[i]);
            assert(all[2 * i] == pairs[2 * i]);
        } else {
            assert(all[2 * i] == tail[2 * i - pairs.len()]);
        }
    }
    assert("--features"@ != NO_SCHEMA_FEATURE@) by {
        assert("--features"@[0] != NO_SCHEMA_FEATURE@[0]);
    }
    if pairs.contains(NO_SCHEMA_FEATURE@) {
        lemma_flag_pairs_contains("--features"@, kept, NO_SCHEMA_FEATURE@);
    }
    if no_schema {
        assert(all[all.len() - 1] == NO_SCHEMA_FEATURE@);
        assert(all.subrange(all.len() - 2, all.len() as int) =~= tail);
    } else {
        assert(all =~= pairs);
    }
}

/// The arguments of `cargo` for one build phase.
pub open spec fn build_args(
    p: ScryptoCompilerInputParams,
    target_directory: Seq<char>,
    manifest_path: Seq<char>,
    no_schema: bool,
) -> Seq<Seq<char>> {
    seq![
        "build"@,
        "--target"@,
        BUILD_TARGET@,
        "--profile"@,
        profile_name(p.profile),
        "--target-dir"@,
        target_directory,
        "--manifest-path"@,
        manifest_path,
    ] + flag_pairs("--package"@, strings_view(p.package@)) + feature_args(
        strings_view(p.features@),
        no_schema,
    ) + (if p.no_default_features {
        seq!["--no-default-features"@]
    } else {
        Seq::empty()
    }) + (if p.all_features {
        seq!["--all-features"@]
    } else {
        Seq::empty()
    }) + strings_view(p.custom_options@)
}

/// The environment of one build phase: the rust flags first, then the
/// chosen variables in order.
pub open spec fn build_envs(p: ScryptoCompilerInputParams, rustflags: Seq<char>) -> Seq<
    (Seq<char>, EnvActionView),
> {
    seq![("CARGO_ENCODED_RUSTFLAGS"@, EnvActionView::Assigned(rustflags))] + env_view(
        p.environment_variables@,
    )
}

/// Appends `flag` and each value after it.
fn push_flag_pairs(args: &mut Vec<String>, flag: &str, values: &Vec<String>)
    ensures
        strings_view(final(args)@) == strings_view(old(args)@) + flag_pairs(
            flag@,
            strings_view(values@),
        ),
{
    let ghost start = strings_view(args@);
    let mut i: usize = 0;
    while i < values.len()
        invariant
            i <= values@.len(),
            strings_view(args@) == start + flag_pairs(flag@, strings_view(values@).take(i as int)),
        decreases values@.len() - i,
    {
        assert(strings_view(values@).take(i + 1).drop_last() =~= strings_view(values@).take(
            i as int,
        ));
        let ghost prev = args@;
        args.push(String::from_str(flag));
        args.push(values[i].clone());
        assert(strings_view(args@) =~= strings_view(prev).push(flag@).push(values@[i as int]@));
        assert(strings_view(values@).take(i + 1).last() == values@[i as int]@);
        assert(strings_view(args@) =~= start + flag_pairs(
            flag@,
            strings_view(values@).take(i + 1),
        ));
        i = i + 1;
    }
    assert(strings_view(values@).take(i as int) =~= strings_view(values@));
}

/// Appends the items of `items` that differ from `x`.
fn push_without(args: &mut Vec<String>, items: &Vec<String>, x: &str)
    ensures
        strings_view(final(args)@) == strings_view(old(args)@) + without_value(
            strings_view(items@),
            x@,
        ),
{
    let ghost start = strings_view(args@);
    let excluded = String::from_str(x);
    let mut i: usize = 0;
    while i < items.len()
        invariant
            i <= items@.len(),
            excluded@ == x@,
            strings_view(args@) == start + without_value(strings_view(items@).take(i as int), x@),
        decreases items@.len() - i,
    {
        assert(strings_view(items@).take(i + 1).drop_last() =~= strings_view(items@).take(
            i as int,
        ));
        let ghost prev = args@;
        assert(strings_view(items@).take(i + 1).last() == items@[i as int]@);
        if items[i] != excluded {
            args.push(items[i].clone());
            assert(strings_view(args@) =~= strings_view(prev).push(items@[i as int]@));
        }
        assert(strings_view(args@) =~= start + without_value(
            strings_view(items@).take(i + 1),
            x@,
        ));
        i = i + 1;
    }
    assert(strings_view(items@).take(i as int) =~= strings_view(items@));
}

/// Appends each string of `items`.
fn push_all(args: &mut Vec<String>, items: &Vec<String>)
    ensures
        strings_view(final(args)@) == strings_view(old(args)@) + strings_view(items@),
{
    let ghost start = strings_view(args@);
    let mut i: usize = 0;
    while i < items.len()
        invariant
            i <= items@.len(),
            strings_view(args@) == start + strings_view(items@).take(i as int),
        decreases items@.len() - i,
    {
        let ghost prev = args@;
        args.push(items[i].clone());
        assert(args@ == prev.push(items@[i as int]));
        assert(strings_view(args@) =~= strings_view(prev).push(items@[i as int]@));
        assert(strings_view(items@).take(i + 1) =~= strings_view(items@).take(i as int).push(items@[i as int]@));
        assert(strings_view(args@) =~= start + strings_view(items@).take(i + 1));
        i = i + 1;
    }
    assert(strings_view(items@).take(i as int) =~= strings_view(items@));
}

/// The Scrypto compiler: its parameters and the paths they resolve to.
#[derive(Debug, Clone, PartialEq, Eq)]
pub struct ScryptoCompiler {
    pub input_params: ScryptoCompilerInputParams,
    /// The path of the package's manifest.
    pub manifest_path: String,
    /// Where the build puts its artifacts.
    pub target_directory: String,
    /// The path of the WASM file the build produces.
    pub target_binary_path: String,
}

impl ScryptoCompiler {
    /// A builder with default parameters.
    pub fn builder() -> (r: ScryptoCompilerBuilder)
        ensures
            r.input_params.manifest_path is None,
            r.input_params.target_directory is None,
            r.input_params.profile == Profile::Release,
            r.input_params.environment_variables@.len() == 0,
            r.input_params.features@.len() == 0,
            !r.input_params.no_default_features,
            !r.input_params.all_features,
            r.input_params.package@.len() == 0,
            r.input_params.custom_options@.len() == 0,
    {
        ScryptoCompilerBuilder::new()
    }

    /// The path of the manifest that the parameters choose, given the
    /// current directory; whether it exists is not checked here.
    pub fn get_manifest_path(input_params: &ScryptoCompilerInputParams, current_dir: &str) -> (r:
        String)
        ensures
            r@ == manifest_path_for(input_params.manifest_path, current_dir@),
    {
        match &input_params.manifest_path {
            Some(path) => {
                if ends_with_component_exec(path.as_str(), MANIFEST_FILE) {
                    path.clone()
                } else {
                    path_join_exec(path.as_str(), MANIFEST_FILE)
                }
            },
            None => path_join_exec(current_dir, MANIFEST_FILE),
        }
    }

    /// The target directory, given what `cargo metadata` printed for the
    /// manifest: its `target_directory` field.
    pub fn get_default_target_directory(manifest_path: &str, metadata: &[u8]) -> (r: Result<
        String,
        ScryptoCompilerError,
    >)
        ensures
            match json_string_field(metadata@, "target_directory"@) {
                Some(d) => r matches Ok(v) && v@ == d,
                None => (r matches Err(ScryptoCompilerError::CargoTargetDirectoryResolutionError(p))
                    && p@ == manifest_path@),
            },
    {
        let field = json_object_string_field(metadata, "target_directory");
        Self::target_directory_from_field(manifest_path, field)
    }

    /// The target directory from the metadata's `target_directory` field, or
    /// the error naming the manifest where there is none.
    pub fn target_directory_from_field(manifest_path: &str, field: Option<String>) -> (r: Result<
        String,
        ScryptoCompilerError,
    >)
        ensures
            match field {
                Some(d) => r == Ok::<String, ScryptoCompilerError>(d),
                None => (r matches Err(ScryptoCompilerError::CargoTargetDirectoryResolutionError(p))
                    && p@ == manifest_path@),
            },
    {
        match field {
            Some(d) => Ok(d),
            None => Err(
                ScryptoCompilerError::CargoTargetDirectoryResolutionError(
                    String::from_str(manifest_path),
                ),
            ),
        }
    }

    /// The directory of the profile's WASM artifacts under the target
    /// directory.
    pub fn get_binary_directory(target_directory: &str, profile: &Profile) -> (r: String)
        ensures
            r@ == binary_directory(target_directory@, *profile),
    {
        let with_target = path_join_exec(target_directory, BUILD_TARGET);
        let dir = profile.as_directory_name();
        path_join_exec(with_target.as_str(), dir.as_str())
    }

    /// The path of the WASM file the manifest builds into the binary
    /// directory: named after its library target, else after its package
    /// with `-` replaced by `_`.
    pub fn get_target_binary_path(
        manifest_path: &str,
        binary_target_directory: &str,
        manifest: &ManifestInfo,
    ) -> (r: Result<String, ScryptoCompilerError>)
        ensures
            is_target_binary_path(r, manifest_path@, binary_target_directory@, *manifest),
    {
        if manifest.workspace_members.len() > 0 {
            return Err(
                ScryptoCompilerError::CargoManifestIsWorkspace(String::from_str(manifest_path)),
            );
        }
        let name = match &manifest.lib_name {
            Some(name) => name.clone(),
            None => match &manifest.package_name {
                Some(name) => dashes_to_underscores_exec(name.as_str()),
                None => {
                    return Err(
                        ScryptoCompilerError::CargoManifestLoadFailure(
                            String::from_str(manifest_path),
                        ),
                    );
                },
            },
        };
        let file = wasm_file_name_exec(name.as_str());
        Ok(path_join_exec(binary_target_directory, file.as_str()))
    }

    /// The compiler for the parameters, once its manifest path, target
    /// directory and manifest are known.
    pub fn from_paths(
        input_params: ScryptoCompilerInputParams,
        manifest_path: String,
        target_directory: String,
        manifest: &ManifestInfo,
    ) -> (r: Result<Self, ScryptoCompilerError>)
        ensures
            match r {
                Ok(c) => {
                    &&& c.input_params == input_params
                    &&& c.manifest_path == manifest_path
                    &&& c.target_directory == target_directory
                    &&& is_target_binary_path(
                        Ok(c.target_binary_path),
                        manifest_path@,
                        binary_directory(target_directory@, input_params.profile),
                        *manifest,
                    )
                },
                Err(e) => is_target_binary_path(
                    Err(e),
                    manifest_path@,
                    binary_directory(target_directory@, input_params.profile),
                    *manifest,
                ),
            },
    {
        let binary_directory = Self::get_binary_directory(
            target_directory.as_str(),
            &input_params.profile,
        );
        let target_binary_path = Self::get_target_binary_path(
            manifest_path.as_str(),
            binary_directory.as_str(),
            manifest,
        );
        match target_binary_path {
            Ok(path) => Ok(
                ScryptoCompiler {
                    input_params,
                    manifest_path,
                    target_directory,
                    target_binary_path: path,
                },
            ),
            Err(e) => Err(e),
        }
    }

    /// The cargo command line of a build phase, with or without the package
    /// schema, given the rust flags of the environment.
    pub fn prepare_command(&self, no_schema: bool, rustflags: String) -> (r: CargoCommand)
        ensures
            strings_view(r.args@) == build_args(
                self.input_params,
                self.target_directory@,
                self.manifest_path@,
                no_schema,
            ),
            env_view(r.envs@) == build_envs(self.input_params, rustflags@),
    {
        let p = &self.input_params;
        let ghost rustflags_view = rustflags@;
        let mut kept: Vec<String> = Vec::new();
        push_without(&mut kept, &p.features, NO_SCHEMA_FEATURE);
        assert(strings_view(kept@) =~= without_value(
            strings_view(p.features@),
            NO_SCHEMA_FEATURE@,
        ));
        let mut args: Vec<String> = Vec::new();
        args.push(String::from_str("build"));
        args.push(String::from_str("--target"));
        args.push(String::from_str(BUILD_TARGET));
        assert(strings_view(args@) =~= seq!["build"@, "--target"@, BUILD_TARGET@]);
        let mut profile_args = p.profile.as_command_args();
        let ghost before_profile = args@;
        args.append(&mut profile_args);
        assert(strings_view(args@) =~= strings_view(before_profile) + seq![
            "--profile"@,
            profile_name(p.profile),
        ]);
        args.push(String::from_str("--target-dir"));
        args.push(self.target_directory.clone());
        args.push(String::from_str("--manifest-path"));
        args.push(self.manifest_path.clone());
        let ghost head = seq![
            "build"@,
            "--target"@,
            BUILD_TARGET@,
            "--profile"@,
            profile_name(p.profile),
            "--target-dir"@,
            self.target_directory@,
            "--manifest-path"@,
            self.manifest_path@,
        ];
        assert(strings_view(args@) =~= head);
        push_flag_pairs(&mut args, "--package", &p.package);
        let ghost with_packages = strings_view(args@);
        push_flag_pairs(&mut args, "--features", &kept);
        if no_schema {
            let ghost before_flag = args@;
            args.push(String::from_str("--features"));
            args.push(String::from_str(NO_SCHEMA_FEATURE));
            assert(strings_view(args@) =~= strings_view(before_flag) + seq![
                "--features"@,
                NO_SCHEMA_FEATURE@,
            ]);
        }
        assert(strings_view(args@) =~= with_packages + feature_args(
            strings_view(p.features@),
            no_schema,
        ));
        let ghost with_features = strings_view(args@);
        if p.no_default_features {
            args.push(String::from_str("--no-default-features"));
        }
        let ghost with_default = strings_view(args@);
        assert(with_default =~= with_features + (if p.no_default_features {
            seq!["--no-default-features"@]
        } else {
            Seq::empty()
        }));
        if p.all_features {
            args.push(String::from_str("--all-features"));
        }
        let ghost with_all = strings_view(args@);
        assert(with_all =~= with_default + (if p.all_features {
            seq!["--all-features"@]
        } else {
            Seq::empty()
        }));
        push_all(&mut args, &p.custom_options);
        assert(strings_view(args@) =~= build_args(
            self.input_params,
            self.target_directory@,
            self.manifest_path@,
            no_schema,
        ));
        let mut envs: Vec<(String, EnvironmentVariableAction)> = Vec::new();
        envs.push(
            (String::from_str("CARGO_ENCODED_RUSTFLAGS"), EnvironmentVariableAction::SetTo(rustflags)),
        );
        let mut i: usize = 0;
        while i < p.environment_variables.len()
            invariant
                i <= p.environment_variables@.len(),
                env_view(envs@) == seq![
                    ("CARGO_ENCODED_RUSTFLAGS"@, EnvActionView::Assigned(rustflags_view)),
                ] + env_view(p.environment_variables@).take(i as int),
            decreases p.environment_variables@.len() - i,
        {
            let name = p.environment_variables[i].0.clone();
            let action = clone_action(&p.environment_variables[i].1);
            let ghost prev = envs@;
            envs.push((name, action));
            assert(env_view(envs@) =~= env_view(prev).push(
                (p.environment_variables@[i as int].0@, p.environment_variables@[i as int].1@),
            ));
            assert(env_view(envs@) =~= seq![
                ("CARGO_ENCODED_RUSTFLAGS"@, EnvActionView::Assigned(rustflags_view)),
            ] + env_view(p.environment_variables@).take(i + 1));
            i = i + 1;
        }
        assert(env_view(p.environment_variables@).take(i as int) =~= env_view(
            p.environment_variables@,
        ));
        CargoCommand { args, envs }
    }

    /// The two cargo command lines of a build, in the order they run: first
    /// with the package schema, from which the package definition is
    /// extracted, then without it, for the final code.
    pub fn build_phases(&self, rustflags: String) -> (r: (CargoCommand, CargoCommand))
        ensures
            strings_view(r.0.args@) == build_args(
                self.input_params,
                self.target_directory@,
                self.manifest_path@,
                false,
            ),
            env_view(r.0.envs@) == build_envs(self.input_params, rustflags@),
            strings_view(r.1.args@) == build_args(
                self.input_params,
                self.target_directory@,
                self.manifest_path@,
                true,
            ),
            env_view(r.1.envs@) == build_envs(self.input_params, rustflags@),
    {
        let with_schema = self.prepare_command(false, rustflags.clone());
        let without_schema = self.prepare_command(true, rustflags);
        (with_schema, without_schema)
    }

    /// The path of the WASM file the build produces.
    pub fn target_binary_path(&self) -> (r: String)
        ensures
            r == self.target_binary_path,
    {
        self.target_binary_path.clone()
    }
}

} // verus!
