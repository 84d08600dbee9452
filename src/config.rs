//! Site settings, resolved from the command line and the environment.
use vstd::prelude::*;

verus! {

/// The command-line switch that selects production mode.
pub const PROD_FLAG: &'static str = "--prod";

pub const DEFAULT_TITLE: &'static str = "Title";

pub const DEFAULT_DATA_DIR: &'static str = "./data/";

pub const DEFAULT_WEBPAGE_DIR: &'static str = "./webpage/";

/// The images directory's default, relative to the webpage directory.
pub const DEFAULT_IMAGES_SUBDIR: &'static str = "images/";

/// Where the site lives below the working directory outside production.
pub const LOCAL_SITE_SUFFIX: &'static str = "/webpage";

pub const MAIN_CSS_SUFFIX: &'static str = "/main.css";

pub const PROD_MOBILE_CSS: &'static str = "./mobile.css";

pub const DEV_MOBILE_CSS: &'static str = "../webpage/mobile.css";

/// The settings of one run of the generator; fixed once built.
#[derive(Clone, Debug)]
pub struct Config {
    pub is_prod: bool,
    pub base_url: String,
    pub title: String,
    pub data_dir: String,
    pub webpage_dir: String,
    pub images_dir: String,
}

/// The optional environment variables `TITLE`, `BASE_URL`, `DATA_DIR`,
/// `WEBPAGE_DIR` and `IMAGES_DIR`, as read at startup.
#[derive(Clone, Debug)]
pub struct EnvVars {
    pub title: Option<String>,
    pub base_url: Option<String>,
    pub data_dir: Option<String>,
    pub webpage_dir: Option<String>,
    pub images_dir: Option<String>,
}

/// The view of an optional variable, or `default` where it is unset.
pub open spec fn or_default(v: Option<String>, default: Seq<char>) -> Seq<char> {
    match v {
        Some(s) => s@,
        None => default,
    }
}

/// Whether the production switch is among the arguments.
pub open spec fn has_prod_flag(args: Seq<String>) -> bool {
    exists|i: int| 0 <= i < args.len() && (#[trigger] args[i])@ == PROD_FLAG@
}

fn take_or(v: &Option<String>, default: &str) -> (r: String)
    ensures
        r@ == or_default(*v, default@),
{
    match v {
        Some(s) => s.clone(),
        None => String::from_str(default),
    }
}

impl Config {
    /// The settings for command-line arguments `args`, working directory
    /// `current_dir` and environment `env`.
    pub fn new(args: &Vec<String>, current_dir: &str, env: &EnvVars) -> (c: Config)
        ensures
            c.is_prod == has_prod_flag(args@),
            c.title@ == or_default(env.title, DEFAULT_TITLE@),
            c.base_url@ == (if c.is_prod {
                or_default(env.base_url, current_dir@ + LOCAL_SITE_SUFFIX@)
            } else {
                current_dir@ + LOCAL_SITE_SUFFIX@
            }),
            c.data_dir@ == or_default(env.data_dir, DEFAULT_DATA_DIR@),
            c.webpage_dir@ == or_default(env.webpage_dir, DEFAULT_WEBPAGE_DIR@),
            c.images_dir@ == or_default(env.images_dir, c.webpage_dir@ + DEFAULT_IMAGES_SUBDIR@),
    {
        let flag = String::from_str(PROD_FLAG);
        let mut is_prod = false;
        let mut i: usize = 0;
        while i < args.len()
            invariant
                i <= args@.len(),
                flag@ == PROD_FLAG@,
                is_prod == exists|j: int| 0 <= j < i && (#[trigger] args@[j])@ == PROD_FLAG@,
            decreases args@.len() - i,
        {
            if args[i] == flag {
                is_prod = true;
            }
            i = i + 1;
        }
        let local_site = String::from_str(current_dir).concat(LOCAL_SITE_SUFFIX);
        let base_url = if is_prod {
            match &env.base_url {
                Some(u) => u.clone(),
                None => local_site,
            }
        } else {
            local_site
        };
        let title = take_or(&env.title, DEFAULT_TITLE);
        let data_dir = take_or(&env.data_dir, DEFAULT_DATA_DIR);
        let webpage_dir = take_or(&env.webpage_dir, DEFAULT_WEBPAGE_DIR);
        let images_dir = match &env.images_dir {
            Some(d) => d.clone(),
            None => webpage_dir.clone().concat(DEFAULT_IMAGES_SUBDIR),
        };
        Config { is_prod, base_url, title, data_dir, webpage_dir, images_dir }
    }

    /// The main stylesheet's address.
    pub fn css_path(&self) -> (r: String)
        ensures
            r@ == self.base_url@ + MAIN_CSS_SUFFIX@,
    {
        self.base_url.clone().concat(MAIN_CSS_SUFFIX)
    }

    /// The mobile stylesheet's address, relative to the pages.
    pub fn mobile_css_path(&self) -> (r: &'static str)
        ensures
            r@ == (if self.is_prod {
                PROD_MOBILE_CSS@
            } else {
                DEV_MOBILE_CSS@
            }),
    {
        if self.is_prod {
            PROD_MOBILE_CSS
        } else {
            DEV_MOBILE_CSS
        }
    }
}

} // verus!
