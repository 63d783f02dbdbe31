use cesty::arg_conf::CompilerConfig;
use cesty::arg_conf::ConfigLanguage;
use cesty::arg_conf::InitConfigOptions;
use cesty::arg_conf::ParsePath;
use cesty::arg_conf::Recipe;
use cesty::arg_conf::Run;
use cesty::arg_conf::config_file_name;
use cesty::arg_conf::config_glob;
use cesty::arg_conf::default_run_config;
use cesty::arg_conf::drop_empty_strings;
use cesty::globals::AccessLevel;
use cesty::globals::Degree;
use cesty::globals::Globals;

fn bare_run() -> Run {
    Run {
        recipe_name: None,
        no_config: false,
        list_paths: false,
        directory: None,
        files: vec![],
        config_path: None,
        compiler: None,
        recipes: vec![],
    }
}

fn recipe(name: &str) -> Recipe {
    Recipe {
        name: name.to_owned(),
        force: None,
        prerun: vec![],
        parse_path: vec![ParsePath { path: ".".to_owned(), recursive: None }],
    }
}

#[test]
fn extensions_per_language_and_overall() {
    let opts = InitConfigOptions::new_default();
    let toml_lang = ConfigLanguage::TOML(opts);
    assert_eq!(toml_lang.get_extensions().unwrap(), vec!["toml"]);
    let opts = InitConfigOptions::new_default();
    let yaml_lang = ConfigLanguage::YAML(opts);
    assert_eq!(yaml_lang.get_extensions().unwrap(), vec!["yaml", "yml"]);
    assert_eq!(
        ConfigLanguage::get_all_extensions().unwrap(),
        vec!["toml", "yaml", "yml"]
    );
}

#[test]
fn languages_are_recognized_by_extension() {
    assert!(matches!(
        ConfigLanguage::from_extension("toml"),
        Ok(ConfigLanguage::TOML(_))
    ));
    assert!(matches!(
        ConfigLanguage::from_extension("yml"),
        Ok(ConfigLanguage::YAML(_))
    ));
    let err = ConfigLanguage::from_extension("ini").unwrap_err();
    match err {
        cesty::error::Alert::Error(info) => {
            assert_eq!(
                info.description,
                "failed to find a appropriate ConfigLanguage for extension `ini`"
            );
            assert_eq!(
                info.note[1],
                "the supported markup languages for the config are: \"TOML, YAML\""
            );
        }
        cesty::error::Alert::Warning(_) => panic!("expected an error"),
    }
}

#[test]
fn recipes_are_found_by_name() {
    let mut run = bare_run();
    run.recipe_name = Some("two".to_owned());
    run.recipes = vec![recipe("one"), recipe("two")];
    let found = run.extract_recipe().unwrap();
    assert_eq!(found.name, "two");
    run.recipe_name = Some("three".to_owned());
    assert!(run.extract_recipe().is_none());
    run.recipe_name = None;
    assert!(run.extract_recipe().is_none());
}

#[test]
fn merging_keeps_the_command_line_and_takes_the_files_recipes() {
    let mut cli = bare_run();
    cli.recipe_name = Some("all".to_owned());
    cli.compiler = Some(CompilerConfig {
        name: None,
        flags: vec!["-g".to_owned()],
        libraries: vec![],
    });
    let mut file = bare_run();
    file.compiler = Some(CompilerConfig {
        name: Some("gcc".to_owned()),
        flags: vec!["-O2".to_owned()],
        libraries: vec!["-lm".to_owned()],
    });
    file.recipes = vec![recipe("all")];
    cli.config_merge(file);
    assert_eq!(cli.recipe_name.as_deref(), Some("all"));
    assert_eq!(cli.recipes.len(), 1);
    let compiler = cli.compiler.unwrap();
    assert_eq!(compiler.name.as_deref(), Some("gcc"));
    assert_eq!(compiler.flags, vec!["-g".to_owned()]);
    assert_eq!(compiler.libraries, vec!["-g".to_owned()]);
}

#[test]
fn merging_without_command_line_compiler_takes_the_files() {
    let mut cli = bare_run();
    let mut file = bare_run();
    file.compiler = Some(CompilerConfig {
        name: Some("clang".to_owned()),
        flags: vec![],
        libraries: vec![],
    });
    cli.config_merge(file);
    assert_eq!(cli.compiler.unwrap().name.as_deref(), Some("clang"));
}

#[test]
fn configuration_files_match_one_glob() {
    assert_eq!(config_glob(), "*.cesty.{toml,yaml,yml}");
}

#[test]
fn fresh_configuration_names() {
    assert_eq!(config_file_name(None, "toml"), "config.cesty.toml");
    assert_eq!(config_file_name(Some("mine"), "yaml"), "mine.cesty.yaml");
}

#[test]
fn the_initializer_template_builds_everything_once() {
    let run = default_run_config();
    let compiler = run.compiler.unwrap();
    assert_eq!(compiler.name.as_deref(), Some("gcc"));
    assert_eq!(compiler.flags, vec!["-std=c11".to_owned(), "-Wall".to_owned()]);
    assert_eq!(compiler.libraries, vec!["-lm".to_owned()]);
    assert_eq!(run.recipes.len(), 1);
    assert_eq!(run.recipes[0].name, "all");
    assert_eq!(run.recipes[0].force, Some(true));
    assert_eq!(
        run.recipes[0].prerun,
        vec!["make".to_owned(), "meson".to_owned(), "ninja".to_owned()]
    );
    assert_eq!(run.recipes[0].parse_path.len(), 1);
    assert_eq!(run.recipes[0].parse_path[0].path, ".");
    assert_eq!(run.recipes[0].parse_path[0].recursive, Some(true));
}

#[test]
fn empty_strings_are_dropped_in_order() {
    let v = vec!["a".to_owned(), String::new(), "b".to_owned(), String::new()];
    assert_eq!(drop_empty_strings(v), vec!["a".to_owned(), "b".to_owned()]);
}

#[test]
fn access_levels_rank_upward() {
    assert_eq!(AccessLevel::Unset.value(), 0);
    assert_eq!(AccessLevel::Config.value(), 1);
    assert_eq!(AccessLevel::Argument.value(), 2);
    assert_eq!(AccessLevel::Main.value(), 3);
    assert_eq!(AccessLevel::Overwrite.value(), 4);
    assert_eq!(AccessLevel::from_filename("main.rs"), AccessLevel::Main);
    assert_eq!(AccessLevel::from_filename("argument.rs"), AccessLevel::Argument);
    assert_eq!(AccessLevel::from_filename("config.rs"), AccessLevel::Config);
    assert_eq!(AccessLevel::from_filename("lister.rs"), AccessLevel::Unset);
}

#[test]
fn degrees_come_from_characters_and_labels() {
    assert_eq!(Degree::try_from_char('s'), Ok(Degree::Small));
    assert_eq!(Degree::try_from_char('M'), Ok(Degree::Medium));
    assert_eq!(Degree::try_from_char('x'), Err(()));
    assert_eq!(Degree::from_char('L'), Degree::Large);
    assert_eq!(Degree::from_char('?'), Degree::Small);
    assert_eq!(Degree::try_from_label("medium"), Ok(Degree::Medium));
    assert_eq!(Degree::try_from_label("LARGE"), Ok(Degree::Large));
    assert_eq!(Degree::try_from_label("S"), Ok(Degree::Small));
    assert_eq!(Degree::try_from_label("tiny"), Err(()));
    assert_eq!(Degree::from_label("Medium"), Degree::Medium);
    assert_eq!(Degree::from_label("nope"), Degree::Small);
}

#[test]
fn globals_respect_clearance() {
    let mut g = Globals::default();
    assert!(!g.get_warn());
    g.set_warn(true, AccessLevel::Config);
    assert!(g.get_warn());
    assert_eq!(g.get_warn_al(), AccessLevel::Config);
    g.set_warn(false, AccessLevel::Unset);
    assert!(g.get_warn());
    g.set_warn(false, AccessLevel::Main);
    assert!(!g.get_warn());
    assert_eq!(g.get_warn_al(), AccessLevel::Main);
    g.set_warn(true, AccessLevel::Overwrite);
    assert!(g.get_warn());
    assert_eq!(g.get_warn_al(), AccessLevel::Main);
    g.set_message_amount(Degree::Large, AccessLevel::Argument);
    assert_eq!(g.get_message_amount(), Degree::Large);
    assert_eq!(g.get_message_amount_al(), AccessLevel::Argument);
    g.set_noconfig(true, AccessLevel::Config);
    assert!(g.get_noconfig());
    assert_eq!(g.get_noconfig_al(), AccessLevel::Config);
}

#[test]
fn searched_extensions_name_c_sources() {
    assert_eq!(cesty::defaults::searched_file_extensions(), vec!["c"]);
    assert_eq!(cesty::defaults::DEFAULT_FUNCTION_PREFIX, "cesty_");
    assert_eq!(cesty::defaults::CONFIG_FOLLOWUP_NAME, "cesty");
}
