use radix_runtime_fuzzer::compiler::{
    ends_with_component_exec, path_join_exec, wasm_file_name_exec, CargoCommand,
    EnvironmentVariableAction, Level, ManifestInfo, Profile, ScryptoCompiler,
    ScryptoCompilerError, ScryptoCompilerInputParams,
};

fn strings(v: &[&str]) -> Vec<String> {
    v.iter().map(|s| s.to_string()).collect()
}

fn blueprint_manifest() -> ManifestInfo {
    ManifestInfo {
        workspace_members: vec![],
        lib_name: None,
        package_name: Some(String::from("test-blueprint")),
    }
}

fn compiler_for(params: ScryptoCompilerInputParams, target_directory: &str) -> ScryptoCompiler {
    let manifest_path = ScryptoCompiler::get_manifest_path(&params, "/work");
    ScryptoCompiler::from_paths(params, manifest_path, target_directory.to_string(), &blueprint_manifest())
        .unwrap()
}

#[test]
fn test_compilation_workspace() {}

#[test]
fn test_compilation_workspace_in_current_dir() {}

#[test]
fn test_target_binary_path() {
    let mut builder = ScryptoCompiler::builder();
    builder.manifest_path(String::from("./tests/assets/blueprint"));
    let params = builder.input_params.clone();
    let manifest_path = ScryptoCompiler::get_manifest_path(&params, "/work");
    let metadata = br#"{"packages":[],"target_directory":"/work/tests/assets/target","version":1}"#;
    let target_directory =
        ScryptoCompiler::get_default_target_directory(&manifest_path, metadata).unwrap();
    let compiler =
        ScryptoCompiler::from_paths(params, manifest_path, target_directory, &blueprint_manifest())
            .unwrap();
    let absolute_path = compiler.target_binary_path();
    assert!(absolute_path
        .ends_with("tests/assets/target/wasm32-unknown-unknown/release/test_blueprint.wasm"));
}

#[test]
fn test_target_binary_path_target() {
    let mut builder = ScryptoCompiler::builder();
    builder
        .manifest_path(String::from("./tests/assets/blueprint"))
        .target_directory(String::from("./tests/target"))
        .custom_options(&["-j", "1"]);
    let compiler = compiler_for(builder.input_params.clone(), "./tests/target");
    assert_eq!(
        "./tests/target/wasm32-unknown-unknown/release/test_blueprint.wasm",
        compiler.target_binary_path()
    );
}

#[test]
fn profile_command_args_and_directories() {
    assert_eq!(Profile::Release.as_command_args(), strings(&["--profile", "release"]));
    assert_eq!(Profile::Debug.as_command_args(), strings(&["--profile", "dev"]));
    assert_eq!(Profile::Test.as_command_args(), strings(&["--profile", "test"]));
    assert_eq!(Profile::Bench.as_command_args(), strings(&["--profile", "bench"]));
    assert_eq!(
        Profile::Custom(String::from("custom")).as_command_args(),
        strings(&["--profile", "custom"])
    );
    assert_eq!(Profile::Debug.as_directory_name(), "debug");
    assert_eq!(Profile::Release.as_directory_name(), "release");
    assert_eq!(Profile::Custom(String::from("x")).as_directory_name(), "x");
    assert_eq!(Profile::default(), Profile::Release);
}

#[test]
fn env_replaces_in_place_and_appends_new_names() {
    let mut builder = ScryptoCompiler::builder();
    builder
        .env("TEST", EnvironmentVariableAction::SetTo(String::from("1")))
        .env("OTHER", EnvironmentVariableAction::Unset)
        .env("TEST", EnvironmentVariableAction::SetTo(String::from("2")));
    assert_eq!(
        builder.input_params.environment_variables,
        vec![
            (String::from("TEST"), EnvironmentVariableAction::SetTo(String::from("2"))),
            (String::from("OTHER"), EnvironmentVariableAction::Unset),
        ]
    );
}

#[test]
fn features_and_packages_are_sets_in_insertion_order() {
    let mut builder = ScryptoCompiler::builder();
    builder.feature("a").feature("b").feature("a").package("p").package("p");
    builder.no_default_features().all_features();
    assert_eq!(builder.input_params.features, strings(&["a", "b"]));
    assert_eq!(builder.input_params.package, strings(&["p"]));
    assert!(builder.input_params.no_default_features);
    assert!(builder.input_params.all_features);
}

#[test]
fn log_level_enables_every_level_up_to_it() {
    let mut builder = ScryptoCompiler::builder();
    builder.log_level(Level::Info);
    assert_eq!(
        builder.input_params.features,
        strings(&["scrypto/log-error", "scrypto/log-warn", "scrypto/log-info"])
    );
    let mut builder = ScryptoCompiler::builder();
    builder.log_level(Level::Error);
    assert_eq!(builder.input_params.features, strings(&["scrypto/log-error"]));
    let mut builder = ScryptoCompiler::builder();
    builder.log_level(Level::Trace).scrypto_macro_trace().coverage().no_schema();
    assert_eq!(
        builder.input_params.features,
        strings(&[
            "scrypto/log-error",
            "scrypto/log-warn",
            "scrypto/log-info",
            "scrypto/log-debug",
            "scrypto/log-trace",
            "scrypto/trace",
            "scrypto/coverage",
            "scrypto/no-schema",
        ])
    );
}

#[test]
fn custom_options_keep_each_option_once() {
    let mut builder = ScryptoCompiler::builder();
    builder.custom_options(&["-j", "1"]).custom_options(&["-j", "2"]);
    assert_eq!(builder.input_params.custom_options, strings(&["-j", "1", "2"]));
}

#[test]
fn manifest_path_is_completed_with_the_manifest_file() {
    let mut params = ScryptoCompiler::builder().input_params;
    assert_eq!(ScryptoCompiler::get_manifest_path(&params, "/cur"), "/cur/Cargo.toml");
    params.manifest_path = Some(String::from("pkg/"));
    assert_eq!(ScryptoCompiler::get_manifest_path(&params, "/cur"), "pkg/Cargo.toml");
    params.manifest_path = Some(String::from("pkg/Cargo.toml"));
    assert_eq!(ScryptoCompiler::get_manifest_path(&params, "/cur"), "pkg/Cargo.toml");
    params.manifest_path = Some(String::from("pkg/xCargo.toml"));
    assert_eq!(ScryptoCompiler::get_manifest_path(&params, "/cur"), "pkg/xCargo.toml/Cargo.toml");
}

#[test]
fn path_helpers_follow_path_semantics() {
    assert_eq!(path_join_exec("a", "b"), "a/b");
    assert_eq!(path_join_exec("a/", "b"), "a/b");
    assert_eq!(path_join_exec("", "b"), "b");
    assert_eq!(path_join_exec("a", "/abs"), "/abs");
    assert!(ends_with_component_exec("Cargo.toml", "Cargo.toml"));
    assert!(ends_with_component_exec("x/Cargo.toml//", "Cargo.toml"));
    assert!(!ends_with_component_exec("xCargo.toml", "Cargo.toml"));
    assert_eq!(wasm_file_name_exec("pkg"), "pkg.wasm");
    assert_eq!(wasm_file_name_exec("pkg.v1"), "pkg.wasm");
    assert_eq!(wasm_file_name_exec(".hidden"), ".hidden.wasm");
    assert_eq!(wasm_file_name_exec(".."), "..");
}

#[test]
fn default_target_directory_comes_from_metadata() {
    let ok = ScryptoCompiler::get_default_target_directory(
        "m/Cargo.toml",
        br#"{"target_directory":"/t"}"#,
    );
    assert_eq!(ok, Ok(String::from("/t")));
    let missing = ScryptoCompiler::get_default_target_directory("m/Cargo.toml", br#"{"x":1}"#);
    assert_eq!(
        missing,
        Err(ScryptoCompilerError::CargoTargetDirectoryResolutionError(String::from(
            "m/Cargo.toml"
        )))
    );
    let not_json = ScryptoCompiler::get_default_target_directory("m/Cargo.toml", b"not json");
    assert!(matches!(
        not_json,
        Err(ScryptoCompilerError::CargoTargetDirectoryResolutionError(_))
    ));
    let not_a_string =
        ScryptoCompiler::get_default_target_directory("m/Cargo.toml", br#"{"target_directory":3}"#);
    assert!(not_a_string.is_err());
}

#[test]
fn target_binary_path_prefers_the_library_name() {
    let manifest = ManifestInfo {
        workspace_members: vec![],
        lib_name: Some(String::from("my-lib")),
        package_name: Some(String::from("pkg")),
    };
    assert_eq!(
        ScryptoCompiler::get_target_binary_path("m/Cargo.toml", "/bin", &manifest),
        Ok(String::from("/bin/my-lib.wasm"))
    );
}

#[test]
fn target_binary_path_errors() {
    let workspace = ManifestInfo {
        workspace_members: strings(&["a"]),
        lib_name: None,
        package_name: Some(String::from("pkg")),
    };
    assert_eq!(
        ScryptoCompiler::get_target_binary_path("m/Cargo.toml", "/bin", &workspace),
        Err(ScryptoCompilerError::CargoManifestIsWorkspace(String::from("m/Cargo.toml")))
    );
    let nameless = ManifestInfo { workspace_members: vec![], lib_name: None, package_name: None };
    assert_eq!(
        ScryptoCompiler::get_target_binary_path("m/Cargo.toml", "/bin", &nameless),
        Err(ScryptoCompilerError::CargoManifestLoadFailure(String::from("m/Cargo.toml")))
    );
}

#[test]
fn binary_directory_holds_target_and_profile() {
    assert_eq!(
        ScryptoCompiler::get_binary_directory("t", &Profile::Debug),
        "t/wasm32-unknown-unknown/debug"
    );
}

#[test]
fn prepare_command_lists_the_build_arguments() {
    let mut builder = ScryptoCompiler::builder();
    builder
        .manifest_path(String::from("pkg"))
        .feature("f1")
        .no_schema()
        .package("p1")
        .no_default_features()
        .all_features()
        .custom_options(&["-j", "1"])
        .env("A", EnvironmentVariableAction::Unset);
    let compiler = compiler_for(builder.input_params.clone(), "/t");
    let CargoCommand { args, envs } = compiler.prepare_command(true, String::from("flags"));
    assert_eq!(
        args,
        strings(&[
            "build",
            "--target",
            "wasm32-unknown-unknown",
            "--profile",
            "release",
            "--target-dir",
            "/t",
            "--manifest-path",
            "pkg/Cargo.toml",
            "--package",
            "p1",
            "--features",
            "f1",
            "--features",
            "scrypto/no-schema",
            "--no-default-features",
            "--all-features",
            "-j",
            "1",
        ])
    );
    assert_eq!(
        envs,
        vec![
            (
                String::from("CARGO_ENCODED_RUSTFLAGS"),
                EnvironmentVariableAction::SetTo(String::from("flags"))
            ),
            (String::from("A"), EnvironmentVariableAction::Unset),
        ]
    );
    let CargoCommand { args, .. } = compiler.prepare_command(false, String::new());
    assert_eq!(
        args,
        strings(&[
            "build",
            "--target",
            "wasm32-unknown-unknown",
            "--profile",
            "release",
            "--target-dir",
            "/t",
            "--manifest-path",
            "pkg/Cargo.toml",
            "--package",
            "p1",
            "--features",
            "f1",
            "--no-default-features",
            "--all-features",
            "-j",
            "1",
        ])
    );
}

#[test]
fn no_schema_feature_follows_the_build_phase() {
    let mut builder = ScryptoCompiler::builder();
    builder.manifest_path(String::from("pkg"));
    let compiler = compiler_for(builder.input_params.clone(), "/t");
    let CargoCommand { args, .. } = compiler.prepare_command(true, String::new());
    assert_eq!(&args[args.len() - 2..], &strings(&["--features", "scrypto/no-schema"])[..]);
    let CargoCommand { args, .. } = compiler.prepare_command(false, String::new());
    assert!(!args.iter().any(|a| a == "--features" || a == "scrypto/no-schema"));
}

#[test]
fn trailing_current_directory_components_are_not_the_last_component() {
    assert!(ends_with_component_exec("x/Cargo.toml/.", "Cargo.toml"));
    assert!(ends_with_component_exec("x/Cargo.toml/./", "Cargo.toml"));
    assert!(!ends_with_component_exec("x/Cargo.toml/..", "Cargo.toml"));
    let mut params = ScryptoCompiler::builder().input_params;
    params.manifest_path = Some(String::from("x/Cargo.toml/."));
    assert_eq!(ScryptoCompiler::get_manifest_path(&params, "/cur"), "x/Cargo.toml/.");
}

#[test]
fn build_phases_run_with_schema_first() {
    let mut builder = ScryptoCompiler::builder();
    builder.manifest_path(String::from("pkg"));
    let compiler = compiler_for(builder.input_params.clone(), "/t");
    let (first, second) = compiler.build_phases(String::from("f"));
    assert!(!first.args.iter().any(|a| a == "scrypto/no-schema"));
    assert_eq!(&second.args[second.args.len() - 2..], &strings(&["--features", "scrypto/no-schema"])[..]);
    assert_eq!(first.envs, second.envs);
}
