//! Settings: command-line arguments and the optional TOML file, merged with
//! command-line arguments first, then the file, then the defaults.
use vstd::prelude::*;

verus! {

/// The Tor SOCKS proxy used when neither the command line nor the file names one.
pub const DEFAULT_PROXY: &'static str = "socks5h://127.0.0.1:9050";

/// The download directory used when neither the command line nor the file names one.
pub const DEFAULT_OUTPUT_DIR: &'static str = "./downloads";

/// What the command line gave: `None` (or `false`) where an option was left out.
#[derive(Debug)]
pub struct CliArgs {
    pub proxy: Option<String>,
    pub output_dir: Option<String>,
    pub verbose: bool,
}

/// What the configuration file gave: `None` where a key is missing.
#[derive(Debug)]
pub struct FileConfig {
    pub proxy: Option<String>,
    pub output_dir: Option<String>,
    pub verbose: Option<bool>,
}

impl Default for FileConfig {
    /// A file that sets nothing.
    fn default() -> (c: FileConfig)
        ensures
            c.proxy is None,
            c.output_dir is None,
            c.verbose is None,
    {
        FileConfig { proxy: None, output_dir: None, verbose: None }
    }
}

/// The settings the application runs with.
#[derive(Debug)]
pub struct Config {
    pub proxy: String,
    pub output_dir: String,
    pub verbose: bool,
}

/// The view of an optional text.
pub open spec fn opt_text(o: Option<String>) -> Option<Seq<char>> {
    match o {
        Some(s) => Some(s@),
        None => None,
    }
}

/// The first of the command-line value, the file value and the default that is there.
pub open spec fn first_given(cli: Option<Seq<char>>, file: Option<Seq<char>>, default: Seq<char>) -> Seq<
    char,
> {
    match cli {
        Some(v) => v,
        None => match file {
            Some(v) => v,
            None => default,
        },
    }
}

fn pick(cli: Option<String>, file: Option<String>, default: &str) -> (v: String)
    ensures
        v@ == first_given(opt_text(cli), opt_text(file), default@),
{
    match cli {
        Some(v) => v,
        None => match file {
            Some(v) => v,
            None => String::from_str(default),
        },
    }
}

impl Config {
    /// Merges the command line and the file: an option given on the command
    /// line wins, then one set in the file, then the default.
    pub fn resolve(cli: CliArgs, file: FileConfig) -> (c: Config)
        ensures
            c.proxy@ == first_given(opt_text(cli.proxy), opt_text(file.proxy), DEFAULT_PROXY@),
            c.output_dir@ == first_given(
                opt_text(cli.output_dir),
                opt_text(file.output_dir),
                DEFAULT_OUTPUT_DIR@,
            ),
            c.verbose == (cli.verbose || (file.verbose == Some(true))),
    {
        let verbose = if cli.verbose {
            true
        } else {
            match file.verbose {
                Some(v) => v,
                None => false,
            }
        };
        Config {
            proxy: pick(cli.proxy, file.proxy, DEFAULT_PROXY),
            output_dir: pick(cli.output_dir, file.output_dir, DEFAULT_OUTPUT_DIR),
            verbose,
        }
    }
}

} // verus!
