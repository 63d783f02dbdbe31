//! The configuration model: what the command line and the configuration
//! file say about a run, and the pure rules for merging the two.
//!
//! Reading the command line, finding and reading the configuration file and
//! deserializing it happen outside the crate; the values land here as plain
//! data.

use vstd::prelude::*;
use vstd::string::StringExecFns;
use crate::error::Alert;
use crate::error::AlertInfo;
use crate::text::str_eq;
use crate::text::append_str;

verus! {

/// Compiler settings, from the configuration file or the command line.
#[derive(Debug)]
pub struct CompilerConfig {
    /// The C compiler to invoke.
    pub name: Option<String>,
    /// Flags for compiling and linking.
    pub flags: Vec<String>,
    /// Libraries for linking.
    pub libraries: Vec<String>,
}

/// One path a recipe parses for test files.
#[derive(Debug)]
pub struct ParsePath {
    pub path: String,
    /// Descend into subdirectories.
    pub recursive: Option<bool>,
}

/// Compiler settings of one recipe.
#[derive(Debug)]
pub struct RecipeCompilerConfig {
    pub name: Option<String>,
    pub flags: Vec<String>,
    pub libraries: Vec<String>,
}

/// One recipe: a named batch of paths to parse, with commands to run first.
#[derive(Debug)]
pub struct Recipe {
    /// The name the recipe is addressed by.
    pub name: String,
    /// Run every test regardless of its own setting.
    pub force: Option<bool>,
    /// Shell commands to run before the batch.
    pub prerun: Vec<String>,
    /// Paths and files to parse.
    pub parse_path: Vec<ParsePath>,
}

/// Everything a run can be told, command line and configuration file merged.
#[derive(Debug)]
pub struct Run {
    /// The recipe to use.
    pub recipe_name: Option<String>,
    /// Skip the configuration file.
    pub no_config: bool,
    /// Only list the files that would be parsed.
    pub list_paths: bool,
    /// Work from this directory.
    pub directory: Option<String>,
    /// Extra files to parse.
    pub files: Vec<String>,
    /// Where the configuration file was found or demanded.
    pub config_path: Option<String>,
    /// Compiler overrides.
    pub compiler: Option<CompilerConfig>,
    /// The recipes the configuration file defines.
    pub recipes: Vec<Recipe>,
}

/// Options of the initializer.
#[derive(Debug)]
pub struct InitConfigOptions {
    /// Where to initialize.
    pub directory: Option<String>,
    /// The configuration file's base name.
    pub name: Option<String>,
    /// Overwrite an existing configuration.
    pub force: bool,
    /// Remove the private directory first.
    pub clean: bool,
}

/// The markup language of a configuration file, with the initializer's
/// options.
#[derive(Debug)]
pub enum ConfigLanguage {
    TOML(InitConfigOptions),
    YAML(InitConfigOptions),
}

/// The commands the program offers.
#[derive(Debug)]
pub enum Commands {
    /// Discover and run tests.
    Run(Run),
    /// Initialize a configuration file.
    Init(ConfigLanguage),
}

/// The whole invocation.
#[derive(Debug)]
pub struct Config {
    pub command: Commands,
}

impl ConfigLanguage {
    /// The initializer options carried by either language.
    pub fn get_options(&self) -> (r: &InitConfigOptions)
        ensures
            self matches ConfigLanguage::TOML(o) ==> *r == o,
            self matches ConfigLanguage::YAML(o) ==> *r == o,
    {
        match self {
            ConfigLanguage::TOML(options) => options,
            ConfigLanguage::YAML(options) => options,
        }
    }

    /// The file extensions this language's configuration files carry,
    /// without the dot. Always succeeds.
    pub fn get_extensions(&self) -> (r: Result<Vec<&'static str>, Alert>)
        ensures
            r matches Ok(v),
            self is TOML ==> r->Ok_0@.len() == 1 && r->Ok_0@[0]@ == "toml"@,
            self is YAML ==> r->Ok_0@.len() == 2 && r->Ok_0@[0]@ == "yaml"@ && r->Ok_0@[1]@
                == "yml"@,
    {
        let mut v: Vec<&'static str> = Vec::new();
        match self {
            ConfigLanguage::TOML(_) => {
                v.push("toml");
            },
            ConfigLanguage::YAML(_) => {
                v.push("yaml");
                v.push("yml");
            },
        }
        Ok(v)
    }

    /// The file extensions of every supported language. Always succeeds.
    pub fn get_all_extensions() -> (r: Result<Vec<&'static str>, Alert>)
        ensures
            r matches Ok(v) && v@.len() == 3 && v@[0]@ == "toml"@ && v@[1]@ == "yaml"@ && v@[2]@
                == "yml"@,
    {
        let mut v: Vec<&'static str> = Vec::new();
        v.push("toml");
        v.push("yaml");
        v.push("yml");
        Ok(v)
    }

    /// The language a configuration file's extension names, or an error
    /// listing the supported languages.
    pub fn from_extension(ext: &str) -> (r: Result<ConfigLanguage, Alert>)
        ensures
            ext@ == "toml"@ ==> (r matches Ok(l) && l is TOML),
            ext@ == "yaml"@ || ext@ == "yml"@ ==> (r matches Ok(l) && l is YAML),
            !(ext@ == "toml"@ || ext@ == "yaml"@ || ext@ == "yml"@) ==> (r matches Err(a)
                && a.is_error() && a.spec_info().example is None && a.spec_info().description@
                == "failed to find a appropriate ConfigLanguage for extension `"@ + ext@ + "`"@
                && a.spec_info().note@.len() == 2 && a.spec_info().note@[0]@
                == "the markup language with the file extension `"@ + ext@
                + "` might not be supported"@ && a.spec_info().note@[1]@
                == "the supported markup languages for the config are: \"TOML, YAML\""@),
    {
        proof {
            reveal_strlit("toml");
            reveal_strlit("yaml");
            reveal_strlit("yml");
            assert("toml"@[0] != "yaml"@[0]);
            assert("toml"@ != "yaml"@);
            assert("toml"@.len() != "yml"@.len());
            assert("toml"@ != "yml"@);
        }
        if str_eq(ext, "toml") {
            return Ok(ConfigLanguage::TOML(InitConfigOptions::new_default()));
        }
        if str_eq(ext, "yaml") || str_eq(ext, "yml") {
            return Ok(ConfigLanguage::YAML(InitConfigOptions::new_default()));
        }
        let mut description = String::from_str(
            "failed to find a appropriate ConfigLanguage for extension `",
        );
        append_str(&mut description, ext);
        append_str(&mut description, "`");
        let mut note0 = String::from_str("the markup language with the file extension `");
        append_str(&mut note0, ext);
        append_str(&mut note0, "` might not be supported");
        let mut note: Vec<String> = Vec::new();
        note.push(note0);
        note.push(
            String::from_str("the supported markup languages for the config are: \"TOML, YAML\""),
        );
        Err(Alert::Error(AlertInfo { description, note, example: None, debug: Vec::new() }))
    }
}

impl InitConfigOptions {
    /// Initializer options with nothing set, as the command line leaves them
    /// when only the language is named.
    pub fn new_default() -> (r: InitConfigOptions)
        ensures
            r.directory is None,
            r.name is None,
            r.force == false,
            r.clean == false,
    {
        InitConfigOptions { directory: None, name: None, force: false, clean: false }
    }
}

/// First index of a recipe with the given name, or -1.
pub open spec fn first_recipe(rs: Seq<Recipe>, n: Seq<char>, from: int) -> int
    decreases rs.len() - from,
{
    if from < 0 || from >= rs.len() {
        -1
    } else if rs[from].name@ == n {
        from
    } else {
        first_recipe(rs, n, from + 1)
    }
}

impl Run {
    /// The recipe the run names, when the configuration defines one by that
    /// name; the first match counts.
    pub fn extract_recipe(&self) -> (r: Option<&Recipe>)
        ensures
            match self.recipe_name {
                None => r is None,
                Some(n) => {
                    let idx = first_recipe(self.recipes@, n@, 0);
                    if idx >= 0 {
                        r matches Some(rec) && *rec == self.recipes@[idx]
                    } else {
                        r is None
                    }
                },
            },
    {
        let name = match &self.recipe_name {
            None => {
                return None;
            },
            Some(n) => n,
        };
        let mut i: usize = 0;
        while i < self.recipes.len()
            invariant
                i <= self.recipes@.len(),
                self.recipe_name matches Some(nm) && nm == *name,
                first_recipe(self.recipes@, name@, 0) == first_recipe(
                    self.recipes@,
                    name@,
                    i as int,
                ),
            decreases self.recipes@.len() - i,
        {
            if str_eq(self.recipes[i].name.as_str(), name.as_str()) {
                return Some(&self.recipes[i]);
            }
            i = i + 1;
        }
        None
    }

    /// Merge the configuration file's run settings into the command line's:
    /// the command line wins where it says anything, the file fills the
    /// rest, and the recipes always come from the file.
    pub fn config_merge(&mut self, config: Self)
        requires
            old(self).compiler is Some ==> config.compiler is Some,
        ensures
            final(self).recipe_name == old(self).recipe_name,
            final(self).no_config == old(self).no_config,
            final(self).list_paths == old(self).list_paths,
            final(self).directory == old(self).directory,
            final(self).files == old(self).files,
            final(self).config_path == old(self).config_path,
            final(self).recipes == config.recipes,
            match old(self).compiler {
                Some(own) => {
                    &&& final(self).compiler matches Some(cc)
                    &&& {
                        let theirs = config.compiler->Some_0;
                        let cc = final(self).compiler->Some_0;
                        &&& cc.name == (if own.name is Some {
                            own.name
                        } else if theirs.name is Some {
                            theirs.name
                        } else {
                            None::<String>
                        })
                        &&& cc.flags@ == (if own.flags@.len() > 0 {
                            own.flags@
                        } else if theirs.flags@.len() > 0 {
                            theirs.flags@
                        } else {
                            Seq::<String>::empty()
                        })
                        &&& cc.libraries@ == (if own.flags@.len() > 0 {
                            own.flags@
                        } else if theirs.flags@.len() > 0 {
                            theirs.flags@
                        } else {
                            Seq::<String>::empty()
                        })
                    }
                },
                None => final(self).compiler == config.compiler,
            },
    {
        let compiler: Option<CompilerConfig> = match &self.compiler {
            Some(own) => {
                let theirs = match &config.compiler {
                    Some(t) => t,
                    None => {
                        proof {
                            assert(false);
                        }
                        unreached()
                    },
                };
                let name: Option<String> = if own.name.is_some() {
                    own.name.clone()
                } else if theirs.name.is_some() {
                    theirs.name.clone()
                } else {
                    None
                };
                let flags: Vec<String> = if own.flags.len() > 0 {
                    own.flags.clone()
                } else if theirs.flags.len() > 0 {
                    theirs.flags.clone()
                } else {
                    Vec::new()
                };
                let libraries: Vec<String> = if own.flags.len() > 0 {
                    own.flags.clone()
                } else if theirs.flags.len() > 0 {
                    theirs.flags.clone()
                } else {
                    Vec::new()
                };
                Some(CompilerConfig { name, flags, libraries })
            },
            None => config.compiler,
        };
        self.compiler = compiler;
        self.recipes = config.recipes;
    }
}

/// The glob pattern that configuration files match: any stem, the follow-up
/// name, and one of the supported extensions.
pub fn config_glob() -> (r: String)
    ensures
        r@ == "*.cesty.{toml,yaml,yml}"@,
{
    let mut s = String::from_str("*.");
    append_str(&mut s, "cesty");
    append_str(&mut s, ".{");
    append_str(&mut s, "toml");
    append_str(&mut s, ",");
    append_str(&mut s, "yaml");
    append_str(&mut s, ",");
    append_str(&mut s, "yml");
    append_str(&mut s, "}");
    proof {
        reveal_strlit("*.");
        reveal_strlit("cesty");
        reveal_strlit(".{");
        reveal_strlit("toml");
        reveal_strlit(",");
        reveal_strlit("yaml");
        reveal_strlit("yml");
        reveal_strlit("}");
        reveal_strlit("*.cesty.{toml,yaml,yml}");
        assert(s@ =~= "*.cesty.{toml,yaml,yml}"@);
    }
    s
}

/// The file name a fresh configuration gets: the chosen or default base
/// name, the follow-up name, and the language's extension.
pub fn config_file_name(name: Option<&str>, extension: &str) -> (r: String)
    ensures
        r@ == (match name {
            Some(n) => n@,
            None => "config"@,
        }) + "."@ + "cesty"@ + "."@ + extension@,
{
    let mut s = match name {
        Some(n) => {
            let mut s = String::new();
            append_str(&mut s, n);
            s
        },
        None => String::from_str("config"),
    };
    append_str(&mut s, ".");
    append_str(&mut s, "cesty");
    append_str(&mut s, ".");
    append_str(&mut s, extension);
    proof {
        assert(s@ =~= (match name {
            Some(n) => n@,
            None => "config"@,
        }) + "."@ + "cesty"@ + "."@ + extension@);
    }
    s
}

/// The run settings a fresh configuration file is written with: one recipe
/// named `all` that builds first and parses everything below the current
/// directory.
pub fn default_run_config() -> (r: Run)
    ensures
        r.recipe_name is None,
        r.config_path is None,
        r.directory is None,
        r.no_config == false,
        r.list_paths == false,
        r.files@ == Seq::<String>::empty(),
        r.compiler matches Some(c) && c.name matches Some(n) && n@ == "gcc"@ && c.flags@.len() == 2
            && c.flags@[0]@ == "-std=c11"@ && c.flags@[1]@ == "-Wall"@ && c.libraries@.len() == 1
            && c.libraries@[0]@ == "-lm"@,
        r.recipes@.len() == 1,
        r.recipes@[0].name@ == "all"@,
        r.recipes@[0].force == Some(true),
        r.recipes@[0].prerun@.len() == 3 && r.recipes@[0].prerun@[0]@ == "make"@
            && r.recipes@[0].prerun@[1]@ == "meson"@ && r.recipes@[0].prerun@[2]@ == "ninja"@,
        r.recipes@[0].parse_path@.len() == 1 && r.recipes@[0].parse_path@[0].path@ == "."@
            && r.recipes@[0].parse_path@[0].recursive == Some(true),
{
    let mut flags: Vec<String> = Vec::new();
    flags.push(String::from_str("-std=c11"));
    flags.push(String::from_str("-Wall"));
    let mut libraries: Vec<String> = Vec::new();
    libraries.push(String::from_str("-lm"));
    let mut prerun: Vec<String> = Vec::new();
    prerun.push(String::from_str("make"));
    prerun.push(String::from_str("meson"));
    prerun.push(String::from_str("ninja"));
    let mut parse_path: Vec<ParsePath> = Vec::new();
    parse_path.push(ParsePath { path: String::from_str("."), recursive: Some(true) });
    let mut recipes: Vec<Recipe> = Vec::new();
    recipes.push(
        Recipe { name: String::from_str("all"), force: Some(true), prerun, parse_path },
    );
    Run {
        recipe_name: None,
        no_config: false,
        list_paths: false,
        directory: None,
        files: Vec::new(),
        config_path: None,
        compiler: Some(
            CompilerConfig { name: Some(String::from_str("gcc")), flags, libraries },
        ),
        recipes,
    }
}

/// Drop the empty strings from a list, keeping the order of the rest: the
/// cleanup applied to flag and library lists.
pub fn drop_empty_strings(v: Vec<String>) -> (r: Vec<String>)
    ensures
        r@ == v@.filter(|s: String| s@.len() > 0),
{
    let mut out: Vec<String> = Vec::new();
    let mut i: usize = 0;
    proof {
        assert(v@.take(0).filter(|s: String| s@.len() > 0) =~= Seq::<String>::empty());
    }
    let n = v.len();
    let mut rest = v;
    while i < n
        invariant
            i <= n == rest@.len(),
            out@ == rest@.take(i as int).filter(|s: String| s@.len() > 0),
        decreases n - i,
    {
        proof {
            reveal_with_fuel(Seq::filter, 2);
            assert(rest@.take(i + 1).drop_last() =~= rest@.take(i as int));
            assert(rest@.take(i + 1).last() == rest@[i as int]);
        }
        if rest[i].as_str().unicode_len() > 0 {
            let s = rest[i].clone();
            proof {
                assert(s == rest@[i as int]);
            }
            out.push(s);
        }
        i = i + 1;
    }
    proof {
        assert(rest@.take(n as int) =~= rest@);
    }
    out
}

} // verus!
